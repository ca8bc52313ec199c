//! The launcher's state and what every key press and every report of the
//! launch and sign-in tasks does to it.
//!
//! Each handler changes the state and returns the outside work it asks for
//! (saving the settings, signing in, launching, ...) as [`Effect`]s, which
//! the program around the library carries out.
use vstd::prelude::*;
use crate::config::Config;
use crate::mc::{loader_list, loader_names, McEvent, VersionEntry};
use crate::text::{
    chars_of, clone_opt_string, clone_strings, concat_str, owned, same_text, signed_decimal,
    signed_decimal_string, split_chars, split_on, string_of, trim, trim_chars,
};

verus! {

/// The screen being shown.
#[derive(PartialEq, Eq, Structural, Clone, Copy, Debug)]
pub enum Screen {
    Main,
    Config,
    Installing,
    GameRunning,
    Auth,
}

/// What the Microsoft sign-in task reports.
pub enum AuthEvent {
    /// The code to enter at the given address.
    DeviceCode { url: String, code: String },
    /// Signed in; the session's refresh token, if Microsoft gave one.
    Success { refresh_token: Option<String> },
    /// Sign-in failed.
    Error(String),
}

/// The values being edited on the configuration screen.
pub struct ConfigEdit {
    pub username: String,
    pub min_ram: String,
    pub max_ram: String,
    pub jvm_args: String,
    pub mods: Vec<String>,
    /// The mod slug being typed.
    pub mod_input: String,
    /// Whether each of the five text fields has been typed into since the
    /// screen opened (the first character typed replaces the old value).
    pub field_dirty: [bool; 5],
}

/// A key, as the handlers see it.
#[derive(PartialEq, Eq, Structural, Clone, Copy, Debug)]
pub enum KeyCode {
    Char(char),
    Up,
    Down,
    Left,
    Right,
    Enter,
    Tab,
    BackTab,
    Esc,
    Backspace,
    Other,
}

/// The modifier keys held with a key: none, exactly Control, or anything else.
#[derive(PartialEq, Eq, Structural, Clone, Copy, Debug)]
pub enum Modifiers {
    Plain,
    Control,
    Other,
}

/// A key press.
#[derive(PartialEq, Eq, Structural, Clone, Copy, Debug)]
pub struct Key {
    pub code: KeyCode,
    pub modifiers: Modifiers,
}

/// How far the installation has come: `done / total` of the work, or an
/// estimate from the time spent while the launcher reports no sizes.
#[derive(PartialEq, Eq, Structural, Clone, Copy, Debug)]
pub enum Progress {
    Fraction { done: u64, total: u64 },
    Estimated,
}

/// Everything the launch task needs.
pub struct LaunchRequest {
    pub version: String,
    pub loader: String,
    pub min_ram: String,
    pub max_ram: String,
    pub jvm_args: Vec<String>,
    pub username: String,
    pub mods: Vec<String>,
    /// Whether the Microsoft session is used (otherwise an offline one).
    pub online: bool,
}

/// Outside work that a handler asks for.
pub enum Effect {
    /// Write the settings (`App::config`) to disk.
    SaveConfig,
    /// Start signing in with Microsoft, reusing the refresh token if there is one.
    StartAuth { refresh_token: Option<String> },
    /// Start the launch task.
    Launch(LaunchRequest),
    /// Open the game directory in the file manager.
    OpenGameDirectory,
    /// Stop the launch task, if one runs.
    CancelLaunch,
}

/// What a key press did: whether the launcher quits, and the work it asks for.
pub struct Outcome {
    pub quit: bool,
    pub effects: Vec<Effect>,
}

/// The launcher's state.
pub struct App {
    pub screen: Screen,
    pub config: Config,
    pub versions: Vec<VersionEntry>,
    pub show_snapshots: bool,
    /// Index into the listed versions (`filtered_versions`).
    pub selected_version: usize,
    /// Index into `loader_list()`.
    pub loader_idx: usize,
    pub theme_idx: usize,
    pub edit: ConfigEdit,
    /// Focused element of the configuration screen: the four text fields,
    /// the mods field, the game directory button, the save button.
    pub config_focus: usize,
    pub install_status: String,
    pub install_progress: Progress,
    pub install_total: u64,
    pub install_current: u64,
    /// Whether an installation was started (its start time is kept outside).
    pub install_started: bool,
    pub install_has_real_progress: bool,
    pub error_message: Option<String>,
    pub auth_code: Option<String>,
    pub auth_url: Option<String>,
    pub auth_status: String,
}

// ── Views ─────────────────────────────────────────────────────────────────
/// The characters of an optional string.
pub open spec fn opt_view(o: Option<String>) -> Option<Seq<char>> {
    match o {
        Some(s) => Some(s@),
        None => None,
    }
}

/// The characters of each string of a list.
pub open spec fn strings_view(v: Seq<String>) -> Seq<Seq<char>> {
    v.map_values(|s: String| s@)
}

pub struct ConfigView {
    pub username: Seq<char>,
    pub min_ram: Seq<char>,
    pub max_ram: Seq<char>,
    pub jvm_args: Seq<char>,
    pub last_version: Seq<char>,
    pub last_loader: Seq<char>,
    pub show_snapshots: bool,
    pub mods: Seq<Seq<char>>,
    pub theme: usize,
    pub online_mode: bool,
    pub msa_refresh_token: Option<Seq<char>>,
}

impl View for Config {
    type V = ConfigView;

    open spec fn view(&self) -> ConfigView {
        ConfigView {
            username: self.username@,
            min_ram: self.min_ram@,
            max_ram: self.max_ram@,
            jvm_args: self.jvm_args@,
            last_version: self.last_version@,
            last_loader: self.last_loader@,
            show_snapshots: self.show_snapshots,
            mods: strings_view(self.mods@),
            theme: self.theme,
            online_mode: self.online_mode,
            msa_refresh_token: opt_view(self.msa_refresh_token),
        }
    }
}

pub struct VersionView {
    pub id: Seq<char>,
    pub version_type: Seq<char>,
}

impl View for VersionEntry {
    type V = VersionView;

    open spec fn view(&self) -> VersionView {
        VersionView { id: self.id@, version_type: self.version_type@ }
    }
}

/// The views of a list of versions.
pub open spec fn versions_view(v: Seq<VersionEntry>) -> Seq<VersionView> {
    v.map_values(|e: VersionEntry| e@)
}

pub struct EditView {
    pub username: Seq<char>,
    pub min_ram: Seq<char>,
    pub max_ram: Seq<char>,
    pub jvm_args: Seq<char>,
    pub mods: Seq<Seq<char>>,
    pub mod_input: Seq<char>,
    pub field_dirty: Seq<bool>,
}

impl View for ConfigEdit {
    type V = EditView;

    open spec fn view(&self) -> EditView {
        EditView {
            username: self.username@,
            min_ram: self.min_ram@,
            max_ram: self.max_ram@,
            jvm_args: self.jvm_args@,
            mods: strings_view(self.mods@),
            mod_input: self.mod_input@,
            field_dirty: self.field_dirty@,
        }
    }
}

pub struct LaunchView {
    pub version: Seq<char>,
    pub loader: Seq<char>,
    pub min_ram: Seq<char>,
    pub max_ram: Seq<char>,
    pub jvm_args: Seq<Seq<char>>,
    pub username: Seq<char>,
    pub mods: Seq<Seq<char>>,
    pub online: bool,
}

impl View for LaunchRequest {
    type V = LaunchView;

    open spec fn view(&self) -> LaunchView {
        LaunchView {
            version: self.version@,
            loader: self.loader@,
            min_ram: self.min_ram@,
            max_ram: self.max_ram@,
            jvm_args: strings_view(self.jvm_args@),
            username: self.username@,
            mods: strings_view(self.mods@),
            online: self.online,
        }
    }
}

pub enum EffectView {
    SaveConfig,
    StartAuth { refresh_token: Option<Seq<char>> },
    Launch(LaunchView),
    OpenGameDirectory,
    CancelLaunch,
}

impl View for Effect {
    type V = EffectView;

    open spec fn view(&self) -> EffectView {
        match self {
            Effect::SaveConfig => EffectView::SaveConfig,
            Effect::StartAuth { refresh_token } => EffectView::StartAuth {
                refresh_token: opt_view(*refresh_token),
            },
            Effect::Launch(r) => EffectView::Launch(r@),
            Effect::OpenGameDirectory => EffectView::OpenGameDirectory,
            Effect::CancelLaunch => EffectView::CancelLaunch,
        }
    }
}

/// The views of a list of effects.
pub open spec fn effects_view(v: Seq<Effect>) -> Seq<EffectView> {
    v.map_values(|e: Effect| e@)
}

pub struct AppView {
    pub screen: Screen,
    pub config: ConfigView,
    pub versions: Seq<VersionView>,
    pub show_snapshots: bool,
    pub selected_version: usize,
    pub loader_idx: usize,
    pub theme_idx: usize,
    pub edit: EditView,
    pub config_focus: usize,
    pub install_status: Seq<char>,
    pub install_progress: Progress,
    pub install_total: u64,
    pub install_current: u64,
    pub install_started: bool,
    pub install_has_real_progress: bool,
    pub error_message: Option<Seq<char>>,
    pub auth_code: Option<Seq<char>>,
    pub auth_url: Option<Seq<char>>,
    pub auth_status: Seq<char>,
}

impl View for App {
    type V = AppView;

    open spec fn view(&self) -> AppView {
        AppView {
            screen: self.screen,
            config: self.config@,
            versions: versions_view(self.versions@),
            show_snapshots: self.show_snapshots,
            selected_version: self.selected_version,
            loader_idx: self.loader_idx,
            theme_idx: self.theme_idx,
            edit: self.edit@,
            config_focus: self.config_focus,
            install_status: self.install_status@,
            install_progress: self.install_progress,
            install_total: self.install_total,
            install_current: self.install_current,
            install_started: self.install_started,
            install_has_real_progress: self.install_has_real_progress,
            error_message: opt_view(self.error_message),
            auth_code: opt_view(self.auth_code),
            auth_url: opt_view(self.auth_url),
            auth_status: self.auth_status@,
        }
    }
}

// ── The model ─────────────────────────────────────────────────────────────
/// The number of elements of the configuration screen, less one.
pub const CONFIG_MAX_FOCUS: usize = 6;

/// Whether a version is listed: all are when snapshots are shown, only
/// releases otherwise.
pub open spec fn is_listed(v: VersionView, show_snapshots: bool) -> bool {
    show_snapshots || v.version_type == "release"@
}

/// The listed versions, in order.
pub open spec fn listed(vs: Seq<VersionView>, show_snapshots: bool) -> Seq<VersionView>
    decreases vs.len(),
{
    if vs.len() == 0 {
        Seq::empty()
    } else {
        let r = listed(vs.drop_last(), show_snapshots);
        if is_listed(vs.last(), show_snapshots) {
            r.push(vs.last())
        } else {
            r
        }
    }
}

/// The trimmed, non-blank pieces among `parts`.
pub open spec fn trimmed_nonblank(parts: Seq<Seq<char>>) -> Seq<Seq<char>>
    decreases parts.len(),
{
    if parts.len() == 0 {
        Seq::empty()
    } else {
        let r = trimmed_nonblank(parts.drop_last());
        if trim(parts.last()).len() > 0 {
            r.push(trim(parts.last()))
        } else {
            r
        }
    }
}

/// The JVM arguments of the comma-separated setting `s`: its pieces between
/// commas, trimmed, blank ones left out.
pub open spec fn jvm_arg_list(s: Seq<char>) -> Seq<Seq<char>> {
    trimmed_nonblank(split_on(s, ','))
}

/// The index of the first version with identifier `id`.
pub open spec fn index_of_version(vs: Seq<VersionView>, id: Seq<char>) -> Option<nat>
    decreases vs.len(),
{
    if vs.len() == 0 {
        None
    } else if vs[0].id == id {
        Some(0)
    } else {
        match index_of_version(vs.drop_first(), id) {
            Some(k) => Some(k + 1),
            None => None,
        }
    }
}

/// The index of the first loader called `name`.
pub open spec fn index_of_loader(names: Seq<Seq<char>>, name: Seq<char>) -> Option<nat>
    decreases names.len(),
{
    if names.len() == 0 {
        None
    } else if names[0] == name {
        Some(0)
    } else {
        match index_of_loader(names.drop_first(), name) {
            Some(k) => Some(k + 1),
            None => None,
        }
    }
}

/// A text field after typing `c` into it: the first character typed since
/// the screen opened replaces the old value, later ones are appended.
pub open spec fn typed_into(field: Seq<char>, dirty: bool, c: char) -> Seq<char> {
    if dirty {
        field.push(c)
    } else {
        seq![c]
    }
}

/// A text field after Backspace.
pub open spec fn backspaced(field: Seq<char>) -> Seq<char> {
    if field.len() > 0 {
        field.drop_last()
    } else {
        field
    }
}

/// The state when the launcher starts with the settings `config` and the
/// known versions `versions`: the last version used is selected again in
/// the list as shown (with or without snapshots, as the settings say), and
/// so is the last loader; the first ones are selected when they are unknown.
pub open spec fn initial_state(config: ConfigView, versions: Seq<VersionView>) -> AppView {
    AppView {
        screen: Screen::Main,
        config: config,
        versions: versions,
        show_snapshots: config.show_snapshots,
        selected_version: match index_of_version(
            listed(versions, config.show_snapshots),
            config.last_version,
        ) {
            Some(i) => i as usize,
            None => 0,
        },
        loader_idx: match index_of_loader(loader_names(), config.last_loader) {
            Some(i) => i as usize,
            None => 0,
        },
        theme_idx: config.theme,
        edit: EditView {
            username: Seq::empty(),
            min_ram: Seq::empty(),
            max_ram: Seq::empty(),
            jvm_args: Seq::empty(),
            mods: Seq::empty(),
            mod_input: Seq::empty(),
            field_dirty: seq![false, false, false, false, false],
        },
        config_focus: 0,
        install_status: Seq::empty(),
        install_progress: Progress::Fraction { done: 0, total: 1 },
        install_total: 0,
        install_current: 0,
        install_started: false,
        install_has_real_progress: false,
        error_message: None,
        auth_code: None,
        auth_url: None,
        auth_status: Seq::empty(),
    }
}

impl AppView {
    /// The invariant of the state.
    pub open spec fn wf(self) -> bool {
        &&& self.loader_idx < 5
        &&& self.config_focus < usize::MAX
        &&& self.selected_version < usize::MAX
        &&& self.versions.len() <= usize::MAX
        &&& self.edit.field_dirty.len() == 5
        &&& self.install_progress matches Progress::Fraction { total, .. } ==> total > 0
    }

    /// The versions shown in the list.
    pub open spec fn listed_versions(self) -> Seq<VersionView> {
        listed(self.versions, self.show_snapshots)
    }

    /// The identifier of the selected version, empty when none is selected.
    pub open spec fn current_version(self) -> Seq<char> {
        let l = self.listed_versions();
        if self.selected_version < l.len() {
            l[self.selected_version as int].id
        } else {
            Seq::empty()
        }
    }

    /// The name of the selected loader.
    pub open spec fn loader_name(self) -> Seq<char> {
        loader_names()[self.loader_idx as int]
    }

    pub open spec fn without_error(self) -> AppView {
        AppView { error_message: None, ..self }
    }

    /// The selection remembered in the settings.
    pub open spec fn persisted(self) -> AppView {
        AppView {
            config: ConfigView {
                last_version: self.current_version(),
                last_loader: self.loader_name(),
                ..self.config
            },
            ..self
        }
    }

    /// The configuration screen opened with the current settings.
    pub open spec fn config_opened(self) -> AppView {
        AppView {
            edit: EditView {
                username: self.config.username,
                min_ram: self.config.min_ram,
                max_ram: self.config.max_ram,
                jvm_args: self.config.jvm_args,
                mods: self.config.mods,
                mod_input: Seq::empty(),
                field_dirty: seq![false, false, false, false, false],
            },
            config_focus: 0,
            screen: Screen::Config,
            ..self
        }
    }

    /// The edited values taken into the settings.
    pub open spec fn config_saved(self) -> AppView {
        AppView {
            config: ConfigView {
                username: self.edit.username,
                min_ram: self.edit.min_ram,
                max_ram: self.edit.max_ram,
                jvm_args: self.edit.jvm_args,
                mods: self.edit.mods,
                show_snapshots: self.show_snapshots,
                ..self.config
            },
            ..self
        }
    }

    /// The installation screen for a new installation.
    pub open spec fn install_begun(self, status: Seq<char>) -> AppView {
        AppView {
            install_status: status,
            install_progress: Progress::Fraction { done: 0, total: 1 },
            install_current: 0,
            install_total: 0,
            install_started: true,
            install_has_real_progress: false,
            screen: Screen::Installing,
            ..self
        }
    }

    /// What a launch of the selected version needs.
    pub open spec fn launch_request(self, online: bool) -> LaunchView {
        LaunchView {
            version: self.current_version(),
            loader: self.loader_name(),
            min_ram: self.config.min_ram,
            max_ram: self.config.max_ram,
            jvm_args: jvm_arg_list(self.config.jvm_args),
            username: self.config.username,
            mods: self.config.mods,
            online: online,
        }
    }

    /// Launching, online or offline as the settings say.
    pub open spec fn launched(self) -> (AppView, Seq<EffectView>) {
        (
            self.install_begun("Starting..."@),
            seq![EffectView::Launch(self.launch_request(self.config.online_mode))],
        )
    }

    /// Launching offline, whatever the settings say.
    pub open spec fn launched_offline(self) -> (AppView, Seq<EffectView>) {
        (
            self.install_begun("Starting... (offline)"@),
            seq![EffectView::Launch(self.launch_request(false))],
        )
    }

    /// Starting to sign in with Microsoft.
    pub open spec fn auth_started(self) -> (AppView, Seq<EffectView>) {
        (
            AppView {
                screen: Screen::Auth,
                auth_status: "Connecting to Microsoft..."@,
                auth_code: None,
                auth_url: None,
                ..self
            },
            seq![EffectView::StartAuth { refresh_token: self.config.msa_refresh_token }],
        )
    }

    /// The next of `theme_count` themes selected and remembered.
    pub open spec fn theme_cycled(self, theme_count: nat) -> (AppView, Seq<EffectView>) {
        let t = ((self.theme_idx + 1) % (theme_count as int)) as usize;
        (
            AppView { theme_idx: t, config: ConfigView { theme: t, ..self.config }, ..self },
            seq![EffectView::SaveConfig],
        )
    }

    /// A key on the main screen.
    pub open spec fn main_key(self, key: Key, theme_count: nat) -> (AppView, bool, Seq<EffectView>) {
        let code = key.code;
        let m = key.modifiers;
        let n = self.listed_versions().len();
        if (code == KeyCode::Char('q') || code == KeyCode::Char('Q')) && m == Modifiers::Plain {
            (self.persisted(), true, seq![EffectView::SaveConfig])
        } else if code == KeyCode::Up || code == KeyCode::Char('k') {
            let sel = if n > 0 && self.selected_version > 0 {
                (self.selected_version - 1) as usize
            } else {
                self.selected_version
            };
            (AppView { selected_version: sel, ..self }.without_error(), false, Seq::empty())
        } else if code == KeyCode::Down || code == KeyCode::Char('j') {
            let sel = if n > 0 {
                if self.selected_version + 1 < n {
                    (self.selected_version + 1) as usize
                } else {
                    (n - 1) as usize
                }
            } else {
                self.selected_version
            };
            (AppView { selected_version: sel, ..self }.without_error(), false, Seq::empty())
        } else if code == KeyCode::Left {
            let l = if self.loader_idx > 0 {
                (self.loader_idx - 1) as usize
            } else {
                0
            };
            (AppView { loader_idx: l, ..self }.without_error(), false, Seq::empty())
        } else if code == KeyCode::Right {
            let l = if self.loader_idx + 1 < 4 {
                (self.loader_idx + 1) as usize
            } else {
                4
            };
            (AppView { loader_idx: l, ..self }.without_error(), false, Seq::empty())
        } else if (code == KeyCode::Char('p') || code == KeyCode::Char('P')) && m
            == Modifiers::Control {
            (self.config_opened(), false, Seq::empty())
        } else if (code == KeyCode::Char('v') || code == KeyCode::Char('V')) && m
            == Modifiers::Control {
            (
                AppView { show_snapshots: !self.show_snapshots, selected_version: 0, ..self },
                false,
                Seq::empty(),
            )
        } else if (code == KeyCode::Char('m') || code == KeyCode::Char('M')) && m
            == Modifiers::Control {
            (
                AppView {
                    config: ConfigView { online_mode: !self.config.online_mode, ..self.config },
                    ..self
                },
                false,
                seq![EffectView::SaveConfig],
            )
        } else if code == KeyCode::Enter {
            if self.config.online_mode {
                (self.auth_started().0, false, self.auth_started().1)
            } else {
                (self.launched().0, false, self.launched().1)
            }
        } else if code == KeyCode::Tab {
            (self.theme_cycled(theme_count).0, false, self.theme_cycled(theme_count).1)
        } else if (code == KeyCode::Char('o') || code == KeyCode::Char('O')) && m
            == Modifiers::Plain {
            (self.launched_offline().0, false, self.launched_offline().1)
        } else {
            (self, false, Seq::empty())
        }
    }

    /// Typing `c` on the configuration screen.
    pub open spec fn typed(self, c: char) -> AppView {
        let e = self.edit;
        let d = e.field_dirty;
        let f = self.config_focus;
        if f == 0 {
            AppView {
                edit: EditView {
                    username: typed_into(e.username, d[0], c),
                    field_dirty: d.update(0, true),
                    ..e
                },
                ..self
            }
        } else if f == 1 {
            AppView {
                edit: EditView {
                    min_ram: typed_into(e.min_ram, d[1], c),
                    field_dirty: d.update(1, true),
                    ..e
                },
                ..self
            }
        } else if f == 2 {
            AppView {
                edit: EditView {
                    max_ram: typed_into(e.max_ram, d[2], c),
                    field_dirty: d.update(2, true),
                    ..e
                },
                ..self
            }
        } else if f == 3 {
            AppView {
                edit: EditView {
                    jvm_args: typed_into(e.jvm_args, d[3], c),
                    field_dirty: d.update(3, true),
                    ..e
                },
                ..self
            }
        } else if f == 4 {
            AppView {
                edit: EditView {
                    mod_input: typed_into(e.mod_input, d[4], c),
                    field_dirty: d.update(4, true),
                    ..e
                },
                ..self
            }
        } else {
            self
        }
    }

    /// Backspace on the configuration screen.
    pub open spec fn backspace(self) -> AppView {
        let e = self.edit;
        let f = self.config_focus;
        if f == 0 {
            AppView { edit: EditView { username: backspaced(e.username), ..e }, ..self }
        } else if f == 1 {
            AppView { edit: EditView { min_ram: backspaced(e.min_ram), ..e }, ..self }
        } else if f == 2 {
            AppView { edit: EditView { max_ram: backspaced(e.max_ram), ..e }, ..self }
        } else if f == 3 {
            AppView { edit: EditView { jvm_args: backspaced(e.jvm_args), ..e }, ..self }
        } else if f == 4 {
            AppView { edit: EditView { mod_input: backspaced(e.mod_input), ..e }, ..self }
        } else {
            self
        }
    }

    /// Leaving the configuration screen with the edits kept.
    pub open spec fn config_closed(self) -> AppView {
        AppView { screen: Screen::Main, ..self.config_saved().persisted() }
    }

    /// A key on the configuration screen.
    pub open spec fn config_key(self, key: Key) -> (AppView, bool, Seq<EffectView>) {
        let code = key.code;
        let f = self.config_focus;
        let next = ((f + 1) % ((CONFIG_MAX_FOCUS + 1) as int)) as usize;
        if code == KeyCode::Esc {
            let b = self.config_closed();
            (
                AppView { edit: EditView { mod_input: Seq::empty(), ..b.edit }, ..b },
                false,
                seq![EffectView::SaveConfig, EffectView::SaveConfig],
            )
        } else if code == KeyCode::Tab || code == KeyCode::Down {
            (AppView { config_focus: next, ..self }, false, Seq::empty())
        } else if code == KeyCode::BackTab || code == KeyCode::Up {
            let prev = if f == 0 {
                CONFIG_MAX_FOCUS
            } else {
                (f - 1) as usize
            };
            (AppView { config_focus: prev, ..self }, false, Seq::empty())
        } else if code == KeyCode::Enter {
            if f <= 3 {
                (AppView { config_focus: next, ..self }, false, Seq::empty())
            } else if f == 4 {
                if self.edit.mod_input.len() > 0 {
                    (
                        AppView {
                            edit: EditView {
                                mods: self.edit.mods.push(self.edit.mod_input),
                                mod_input: Seq::empty(),
                                ..self.edit
                            },
                            ..self
                        },
                        false,
                        Seq::empty(),
                    )
                } else {
                    (self, false, Seq::empty())
                }
            } else if f == 5 {
                (self, false, seq![EffectView::OpenGameDirectory])
            } else if f == 6 {
                (
                    self.config_closed(),
                    false,
                    seq![EffectView::SaveConfig, EffectView::SaveConfig],
                )
            } else {
                (self, false, Seq::empty())
            }
        } else if (code == KeyCode::Char('d') || code == KeyCode::Char('D')) && key.modifiers
            == Modifiers::Control {
            if f == 4 && self.edit.mods.len() > 0 {
                (
                    AppView {
                        edit: EditView { mods: self.edit.mods.drop_last(), ..self.edit },
                        ..self
                    },
                    false,
                    Seq::empty(),
                )
            } else {
                (self, false, Seq::empty())
            }
        } else if code is Char {
            (self.typed(code->Char_0), false, Seq::empty())
        } else if code == KeyCode::Backspace {
            (self.backspace(), false, Seq::empty())
        } else {
            (self, false, Seq::empty())
        }
    }

    /// A key on the installation screen: Control+C cancels.
    pub open spec fn installing_key(self, key: Key) -> (AppView, bool, Seq<EffectView>) {
        if (key.code == KeyCode::Char('c') || key.code == KeyCode::Char('C')) && key.modifiers
            == Modifiers::Control {
            (
                AppView {
                    install_status: Seq::empty(),
                    install_progress: Progress::Fraction { done: 0, total: 1 },
                    install_current: 0,
                    install_total: 0,
                    screen: Screen::Main,
                    ..self
                },
                false,
                seq![EffectView::CancelLaunch],
            )
        } else {
            (self, false, Seq::empty())
        }
    }

    /// A key on the sign-in screen: Esc gives up.
    pub open spec fn auth_key(self, key: Key) -> (AppView, bool, Seq<EffectView>) {
        if key.code == KeyCode::Esc {
            (
                AppView {
                    screen: Screen::Main,
                    auth_status: Seq::empty(),
                    auth_code: None,
                    auth_url: None,
                    ..self
                },
                false,
                Seq::empty(),
            )
        } else {
            (self, false, Seq::empty())
        }
    }

    /// A key press: the new state, whether the launcher quits, and the work asked for.
    pub open spec fn key_step(self, key: Key, theme_count: nat) -> (AppView, bool, Seq<EffectView>) {
        match self.screen {
            Screen::Main => self.main_key(key, theme_count),
            Screen::Config => self.config_key(key),
            Screen::Installing => self.installing_key(key),
            Screen::GameRunning => (self, true, Seq::empty()),
            Screen::Auth => self.auth_key(key),
        }
    }

    /// A report of the launch task.
    pub open spec fn mc_event_step(self, event: McEvent) -> (AppView, Seq<EffectView>) {
        match event {
            McEvent::Status(s) => (AppView { install_status: s@, ..self }, Seq::empty()),
            McEvent::Progress { current, total } => {
                let b = if total > 0 {
                    AppView {
                        install_total: total,
                        install_has_real_progress: true,
                        install_progress: Progress::Fraction { done: current, total: total },
                        ..self
                    }
                } else if self.install_total > 0 {
                    AppView {
                        install_progress: Progress::Fraction {
                            done: current,
                            total: self.install_total,
                        },
                        ..self
                    }
                } else {
                    self
                };
                (AppView { install_current: current, ..b }, Seq::empty())
            },
            McEvent::Launched { .. } => (
                AppView {
                    install_progress: Progress::Fraction { done: 1, total: 1 },
                    install_status: "Launching..."@,
                    screen: Screen::GameRunning,
                    ..self
                },
                Seq::empty(),
            ),
            McEvent::ProcessOutput(_) => (self, Seq::empty()),
            McEvent::ProcessExited { .. } => (
                AppView { screen: Screen::Main, ..self.persisted() },
                seq![EffectView::SaveConfig],
            ),
            McEvent::Error(e) => (
                AppView {
                    install_progress: Progress::Fraction { done: 1, total: 1 },
                    error_message: Some(e@),
                    screen: Screen::Main,
                    ..self
                },
                Seq::empty(),
            ),
            McEvent::Done => (
                AppView {
                    install_progress: Progress::Fraction { done: 1, total: 1 },
                    screen: if self.screen == Screen::Installing {
                        Screen::Main
                    } else {
                        self.screen
                    },
                    ..self
                },
                Seq::empty(),
            ),
        }
    }

    /// A report of the sign-in task.
    pub open spec fn auth_event_step(self, event: AuthEvent) -> (AppView, Seq<EffectView>) {
        match event {
            AuthEvent::DeviceCode { url, code } => (
                AppView {
                    auth_code: Some(code@),
                    auth_url: Some(url@),
                    auth_status: "Login with Microsoft"@,
                    ..self
                },
                Seq::empty(),
            ),
            AuthEvent::Success { refresh_token } => {
                let (b, saved): (AppView, Seq<EffectView>) = match refresh_token {
                    Some(t) => (
                        AppView {
                            config: ConfigView { msa_refresh_token: Some(t@), ..self.config },
                            ..self
                        },
                        seq![EffectView::SaveConfig],
                    ),
                    None => (self, Seq::empty()),
                };
                let c = AppView { auth_status: "Authenticated! Launching..."@, ..b };
                (c.launched().0, saved + c.launched().1)
            },
            AuthEvent::Error(e) => (
                AppView { auth_status: "Auth error: "@ + e@, ..self },
                Seq::empty(),
            ),
        }
    }

    /// Time passing during an installation: without sizes reported by the
    /// launcher, the progress becomes an estimate from the time spent.
    pub open spec fn fake_progress_step(self) -> AppView {
        if !self.install_has_real_progress && self.install_started {
            AppView { install_progress: Progress::Estimated, ..self }
        } else {
            self
        }
    }
}

// ── Executable state machine ──────────────────────────────────────────────
impl App {
    /// The invariant of the state.
    pub open spec fn wf(&self) -> bool {
        self@.wf()
    }

    /// The launcher's state at start-up, with the last version and loader
    /// used selected again.
    pub fn new(config: Config, versions: Vec<VersionEntry>) -> (r: App)
        ensures
            r@ == initial_state(config@, versions_view(versions@)),
            r.wf(),
    {
        let selected_version: usize = {
            let shown = listed_refs(&versions, config.show_snapshots);
            let _ = versions.len();
            proof {
                lemma_listed_len(versions_view(versions@), config.show_snapshots);
                lemma_index_of_version_bound(
                    listed(versions_view(versions@), config.show_snapshots),
                    config.last_version@,
                );
            }
            match position_of_version(&shown, &config.last_version) {
                Some(i) => i,
                None => 0,
            }
        };
        let loader_idx: usize = match position_of_loader(config.last_loader.as_str()) {
            Some(i) => i,
            None => 0,
        };
        proof {
            lemma_index_of_loader_bound(loader_names(), config.last_loader@);
        }
        let theme_idx = config.theme;
        let show_snapshots = config.show_snapshots;
        let r = App {
            screen: Screen::Main,
            show_snapshots,
            selected_version,
            loader_idx,
            theme_idx,
            config,
            versions,
            edit: ConfigEdit {
                username: String::new(),
                min_ram: String::new(),
                max_ram: String::new(),
                jvm_args: String::new(),
                mods: Vec::new(),
                mod_input: String::new(),
                field_dirty: [false, false, false, false, false],
            },
            config_focus: 0,
            install_status: String::new(),
            install_progress: Progress::Fraction { done: 0, total: 1 },
            install_current: 0,
            install_total: 0,
            install_started: false,
            install_has_real_progress: false,
            error_message: None,
            auth_code: None,
            auth_url: None,
            auth_status: String::new(),
        };
        assert(r@.edit.mods =~= Seq::<Seq<char>>::empty());
        assert(r@.edit.field_dirty =~= seq![false, false, false, false, false]);
        r
    }

    /// Forgets the error shown on the main screen.
    pub fn clear_error(&mut self)
        ensures
            final(self)@ == old(self)@.without_error(),
    {
        self.error_message = None;
    }

    /// Selects the next of `theme_count` themes and remembers it.
    pub fn cycle_theme(&mut self, theme_count: usize) -> (fx: Vec<Effect>)
        requires
            theme_count > 0,
            old(self).theme_idx < usize::MAX,
        ensures
            final(self)@ == old(self)@.theme_cycled(theme_count as nat).0,
            effects_view(fx@) == old(self)@.theme_cycled(theme_count as nat).1,
    {
        self.theme_idx = (self.theme_idx + 1) % theme_count;
        self.config.theme = self.theme_idx;
        let mut fx: Vec<Effect> = Vec::new();
        fx.push(Effect::SaveConfig);
        assert(effects_view(fx@) =~= seq![EffectView::SaveConfig]);
        fx
    }

    /// The versions shown in the list: all of them when snapshots are shown,
    /// only releases otherwise.
    pub fn filtered_versions(&self) -> (r: Vec<&VersionEntry>)
        ensures
            r@.map_values(|v: &VersionEntry| v@) == self@.listed_versions(),
    {
        listed_refs(&self.versions, self.show_snapshots)
    }

    /// The identifier of the selected version; empty when the selection is
    /// past the end of the list.
    pub fn current_version(&self) -> (r: String)
        ensures
            r@ == self@.current_version(),
    {
        let l = self.filtered_versions();
        if self.selected_version < l.len() {
            let v = l[self.selected_version];
            assert(l@.map_values(|v: &VersionEntry| v@)[self.selected_version as int] == v@);
            v.id.clone()
        } else {
            String::new()
        }
    }

    /// Opens the configuration screen with the current settings.
    pub fn start_config(&mut self)
        ensures
            final(self)@ == old(self)@.config_opened(),
    {
        self.edit = ConfigEdit {
            username: self.config.username.clone(),
            min_ram: self.config.min_ram.clone(),
            max_ram: self.config.max_ram.clone(),
            jvm_args: self.config.jvm_args.clone(),
            mods: clone_strings(&self.config.mods),
            mod_input: String::new(),
            field_dirty: [false, false, false, false, false],
        };
        self.config_focus = 0;
        self.screen = Screen::Config;
        assert(self.edit.field_dirty@ =~= seq![false, false, false, false, false]);
    }

    /// Takes the edited values into the settings.
    fn save_config(&mut self, fx: &mut Vec<Effect>)
        ensures
            final(self)@ == old(self)@.config_saved(),
            effects_view(final(fx)@) == effects_view(old(fx)@).push(EffectView::SaveConfig),
    {
        self.config.username = self.edit.username.clone();
        self.config.min_ram = self.edit.min_ram.clone();
        self.config.max_ram = self.edit.max_ram.clone();
        self.config.jvm_args = self.edit.jvm_args.clone();
        self.config.mods = clone_strings(&self.edit.mods);
        self.config.show_snapshots = self.show_snapshots;
        push_effect(fx, Effect::SaveConfig);
    }

    /// Remembers the selected version and loader in the settings.
    fn persist_state(&mut self, fx: &mut Vec<Effect>)
        requires
            old(self).wf(),
        ensures
            final(self)@ == old(self)@.persisted(),
            effects_view(final(fx)@) == effects_view(old(fx)@).push(EffectView::SaveConfig),
    {
        self.config.last_version = self.current_version();
        let names = loader_list();
        self.config.last_loader = owned(names[self.loader_idx]);
        push_effect(fx, Effect::SaveConfig);
    }

    /// The JVM arguments of the settings: the pieces between commas,
    /// trimmed, blank ones left out.
    pub fn parse_jvm_args(&self) -> (r: Vec<String>)
        ensures
            strings_view(r@) == jvm_arg_list(self.config.jvm_args@),
    {
        let cs = chars_of(self.config.jvm_args.as_str());
        let parts = split_chars(cs.as_slice(), ',');
        let ghost pv = parts@.map_values(|p: Vec<char>| p@);
        let mut r: Vec<String> = Vec::new();
        let n = parts.len();
        for i in 0..n
            invariant
                n == parts@.len(),
                pv == parts@.map_values(|p: Vec<char>| p@),
                strings_view(r@) == trimmed_nonblank(pv.take(i as int)),
        {
            assert(pv.take(i + 1).drop_last() =~= pv.take(i as int));
            assert(pv.take(i + 1).last() == parts@[i as int]@);
            let t = trim_chars(parts[i].as_slice());
            if t.len() > 0 {
                let ghost before = r@;
                let s = string_of(t.as_slice());
                r.push(s);
                assert(strings_view(r@) =~= strings_view(before).push(t@));
            }
        }
        assert(pv.take(n as int) =~= pv);
        r
    }

    /// Shows the installation screen for a new installation.
    fn reset_install_state(&mut self, status: &str)
        ensures
            final(self)@ == old(self)@.install_begun(status@),
    {
        self.install_status = owned(status);
        self.install_progress = Progress::Fraction { done: 0, total: 1 };
        self.install_current = 0;
        self.install_total = 0;
        self.install_started = true;
        self.install_has_real_progress = false;
        self.screen = Screen::Installing;
    }

    /// Handles a key press.
    pub fn handle_key(&mut self, key: Key, theme_count: usize) -> (r: Outcome)
        requires
            old(self).wf(),
            old(self).screen == Screen::Main && key.code == KeyCode::Tab ==> theme_count > 0
                && old(self).theme_idx < usize::MAX,
        ensures
            (final(self)@, r.quit, effects_view(r.effects@)) == old(self)@.key_step(
                key,
                theme_count as nat,
            ),
            final(self).wf(),
    {
        let mut fx: Vec<Effect> = Vec::new();
        let quit = match self.screen {
            Screen::Main => self.handle_main_key(key, theme_count, &mut fx),
            Screen::Config => self.handle_config_key(key, &mut fx),
            Screen::Installing => self.handle_installing_key(key, &mut fx),
            Screen::GameRunning => true,
            Screen::Auth => self.handle_auth_key(key),
        };
        proof {
            lemma_key_step_wf(old(self)@, key, theme_count as nat);
        }
        assert(effects_view(fx@) =~= old(self)@.key_step(key, theme_count as nat).2);
        Outcome { quit, effects: fx }
    }

    /// Handles a key on the main screen, appending the work it asks for to
    /// the empty list `fx`. Left and Right move through the loaders without
    /// leaving the list (stopping at its ends), clear the error shown, and
    /// change nothing else.
    pub fn handle_main_key(&mut self, key: Key, theme_count: usize, fx: &mut Vec<Effect>) -> (quit:
        bool)
        requires
            old(self).wf(),
            old(fx)@.len() == 0,
            key.code == KeyCode::Tab ==> theme_count > 0 && old(self).theme_idx < usize::MAX,
        ensures
            (final(self)@, quit, effects_view(final(fx)@)) == old(self)@.main_key(
                key,
                theme_count as nat,
            ),
            key.code == KeyCode::Left || key.code == KeyCode::Right ==> {
                &&& !quit
                &&& final(fx)@.len() == 0
                &&& final(self).error_message is None
                &&& final(self).loader_idx < loader_names().len()
                &&& key.code == KeyCode::Left ==> final(self).loader_idx == (if old(
                    self,
                ).loader_idx > 0 {
                    old(self).loader_idx - 1
                } else {
                    0
                })
                &&& key.code == KeyCode::Right ==> final(self).loader_idx == (if old(
                    self,
                ).loader_idx + 1 < loader_names().len() {
                    old(self).loader_idx + 1
                } else {
                    loader_names().len() - 1
                })
                &&& final(self)@ == (AppView {
                    loader_idx: final(self).loader_idx,
                    error_message: None,
                    ..old(self)@
                })
            },
    {
        let code = key.code;
        let m = key.modifiers;
        let ghost pre = self@;
        if (code == KeyCode::Char('q') || code == KeyCode::Char('Q')) && m == Modifiers::Plain {
            self.persist_state(fx);
            assert(effects_view(fx@) =~= seq![EffectView::SaveConfig]);
            return true;
        } else if code == KeyCode::Up || code == KeyCode::Char('k') {
            if self.filtered_versions().len() > 0 {
                self.selected_version = if self.selected_version > 0 {
                    self.selected_version - 1
                } else {
                    0
                };
            }
            self.clear_error();
        } else if code == KeyCode::Down || code == KeyCode::Char('j') {
            let count = self.filtered_versions().len();
            if count > 0 {
                self.selected_version = if self.selected_version + 1 < count {
                    self.selected_version + 1
                } else {
                    count - 1
                };
            }
            self.clear_error();
        } else if code == KeyCode::Left {
            self.loader_idx = if self.loader_idx > 0 {
                self.loader_idx - 1
            } else {
                0
            };
            self.clear_error();
        } else if code == KeyCode::Right {
            let max = loader_list().len() - 1;
            self.loader_idx = if self.loader_idx + 1 < max {
                self.loader_idx + 1
            } else {
                max
            };
            self.clear_error();
        } else if (code == KeyCode::Char('p') || code == KeyCode::Char('P')) && m
            == Modifiers::Control {
            self.start_config();
        } else if (code == KeyCode::Char('v') || code == KeyCode::Char('V')) && m
            == Modifiers::Control {
            self.show_snapshots = !self.show_snapshots;
            self.selected_version = 0;
        } else if (code == KeyCode::Char('m') || code == KeyCode::Char('M')) && m
            == Modifiers::Control {
            self.config.online_mode = !self.config.online_mode;
            push_effect(fx, Effect::SaveConfig);
            assert(effects_view(fx@) =~= seq![EffectView::SaveConfig]);
        } else if code == KeyCode::Enter {
            if self.config.online_mode {
                self.start_auth(fx);
            } else {
                self.launch_into(fx);
            }
            assert(effects_view(fx@) =~= pre.main_key(key, theme_count as nat).2);
        } else if code == KeyCode::Tab {
            let mut more = self.cycle_theme(theme_count);
            fx.append(&mut more);
            assert(effects_view(fx@) =~= seq![EffectView::SaveConfig]);
        } else if (code == KeyCode::Char('o') || code == KeyCode::Char('O')) && m
            == Modifiers::Plain {
            self.launch_offline_into(fx);
            assert(effects_view(fx@) =~= pre.main_key(key, theme_count as nat).2);
        }
        assert(effects_view(fx@) =~= pre.main_key(key, theme_count as nat).2);
        false
    }

    fn start_auth(&mut self, fx: &mut Vec<Effect>)
        ensures
            final(self)@ == old(self)@.auth_started().0,
            effects_view(final(fx)@) == effects_view(old(fx)@) + old(self)@.auth_started().1,
    {
        self.screen = Screen::Auth;
        self.auth_status = owned("Connecting to Microsoft...");
        self.auth_code = None;
        self.auth_url = None;
        let refresh_token = clone_opt_string(&self.config.msa_refresh_token);
        let ghost before = fx@;
        push_effect(fx, Effect::StartAuth { refresh_token });
        assert(effects_view(fx@) =~= effects_view(before) + old(self)@.auth_started().1);
    }

    /// Handles a report of the sign-in task.
    pub fn handle_auth_event(&mut self, event: AuthEvent) -> (fx: Vec<Effect>)
        requires
            old(self).wf(),
        ensures
            (final(self)@, effects_view(fx@)) == old(self)@.auth_event_step(event),
            final(self).wf(),
    {
        let ghost pre = self@;
        let ghost ev = event;
        let mut fx: Vec<Effect> = Vec::new();
        match event {
            AuthEvent::DeviceCode { url, code } => {
                self.auth_code = Some(code);
                self.auth_url = Some(url);
                self.auth_status = owned("Login with Microsoft");
            },
            AuthEvent::Success { refresh_token } => {
                match refresh_token {
                    Some(rt) => {
                        self.config.msa_refresh_token = Some(rt);
                        push_effect(&mut fx, Effect::SaveConfig);
                    },
                    None => {},
                }
                self.auth_status = owned("Authenticated! Launching...");
                self.launch_into(&mut fx);
            },
            AuthEvent::Error(e) => {
                self.auth_status = concat_str("Auth error: ", e.as_str());
            },
        }
        assert(effects_view(fx@) =~= pre.auth_event_step(ev).1);
        fx
    }

    fn handle_auth_key(&mut self, key: Key) -> (quit: bool)
        ensures
            (final(self)@, quit, Seq::<EffectView>::empty()) == old(self)@.auth_key(key),
    {
        if key.code == KeyCode::Esc {
            self.screen = Screen::Main;
            self.auth_status = String::new();
            self.auth_code = None;
            self.auth_url = None;
        }
        false
    }

    fn launch_into(&mut self, fx: &mut Vec<Effect>)
        requires
            old(self).wf(),
        ensures
            final(self)@ == old(self)@.launched().0,
            effects_view(final(fx)@) == effects_view(old(fx)@) + old(self)@.launched().1,
    {
        let request = self.launch_request(self.config.online_mode);
        let ghost before = fx@;
        push_effect(fx, Effect::Launch(request));
        assert(effects_view(fx@) =~= effects_view(before) + old(self)@.launched().1);
        self.reset_install_state("Starting...");
    }

    fn launch_offline_into(&mut self, fx: &mut Vec<Effect>)
        requires
            old(self).wf(),
        ensures
            final(self)@ == old(self)@.launched_offline().0,
            effects_view(final(fx)@) == effects_view(old(fx)@) + old(self)@.launched_offline().1,
    {
        let request = self.launch_request(false);
        let ghost before = fx@;
        push_effect(fx, Effect::Launch(request));
        assert(effects_view(fx@) =~= effects_view(before) + old(self)@.launched_offline().1);
        self.reset_install_state("Starting... (offline)");
    }

    /// What a launch of the selected version needs.
    fn launch_request(&self, online: bool) -> (r: LaunchRequest)
        requires
            self.wf(),
        ensures
            r@ == self@.launch_request(online),
    {
        let names = loader_list();
        LaunchRequest {
            version: self.current_version(),
            loader: owned(names[self.loader_idx]),
            min_ram: self.config.min_ram.clone(),
            max_ram: self.config.max_ram.clone(),
            jvm_args: self.parse_jvm_args(),
            username: self.config.username.clone(),
            mods: clone_strings(&self.config.mods),
            online,
        }
    }

    /// Launches the selected version, online or offline as the settings say.
    pub fn launch_minecraft(&mut self) -> (fx: Vec<Effect>)
        requires
            old(self).wf(),
        ensures
            (final(self)@, effects_view(fx@)) == old(self)@.launched(),
            final(self).wf(),
    {
        let mut fx: Vec<Effect> = Vec::new();
        self.launch_into(&mut fx);
        assert(effects_view(fx@) =~= old(self)@.launched().1);
        fx
    }

    /// Launches the selected version offline.
    pub fn launch_minecraft_offline(&mut self) -> (fx: Vec<Effect>)
        requires
            old(self).wf(),
        ensures
            (final(self)@, effects_view(fx@)) == old(self)@.launched_offline(),
            final(self).wf(),
    {
        let mut fx: Vec<Effect> = Vec::new();
        self.launch_offline_into(&mut fx);
        assert(effects_view(fx@) =~= old(self)@.launched_offline().1);
        fx
    }

    /// Handles a report of the launch task.
    pub fn handle_mc_event(&mut self, event: McEvent) -> (fx: Vec<Effect>)
        requires
            old(self).wf(),
        ensures
            (final(self)@, effects_view(fx@)) == old(self)@.mc_event_step(event),
            final(self).wf(),
    {
        let ghost pre = self@;
        let ghost ev = event;
        let mut fx: Vec<Effect> = Vec::new();
        match event {
            McEvent::Status(s) => self.install_status = s,
            McEvent::Progress { current, total } => {
                if total > 0 {
                    self.install_total = total;
                    self.install_has_real_progress = true;
                    self.install_progress = Progress::Fraction { done: current, total };
                } else if self.install_total > 0 {
                    self.install_progress = Progress::Fraction {
                        done: current,
                        total: self.install_total,
                    };
                }
                self.install_current = current;
            },
            McEvent::Launched { .. } => {
                self.install_progress = Progress::Fraction { done: 1, total: 1 };
                self.install_status = owned("Launching...");
                self.screen = Screen::GameRunning;
            },
            McEvent::ProcessOutput(_) => {},
            McEvent::ProcessExited { .. } => {
                self.persist_state(&mut fx);
                self.screen = Screen::Main;
            },
            McEvent::Error(e) => {
                self.install_progress = Progress::Fraction { done: 1, total: 1 };
                self.error_message = Some(e);
                self.screen = Screen::Main;
            },
            McEvent::Done => {
                self.install_progress = Progress::Fraction { done: 1, total: 1 };
                if self.screen == Screen::Installing {
                    self.screen = Screen::Main;
                }
            },
        }
        assert(effects_view(fx@) =~= pre.mc_event_step(ev).1);
        fx
    }

    /// Time passing during an installation: while the launcher reports no
    /// sizes, the progress shown is an estimate from the time spent.
    pub fn advance_fake_progress(&mut self)
        requires
            old(self).wf(),
        ensures
            final(self)@ == old(self)@.fake_progress_step(),
            final(self).wf(),
    {
        if self.install_has_real_progress {
            return;
        }
        if self.install_started {
            self.install_progress = Progress::Estimated;
        }
    }

    /// Handles a key on the configuration screen, appending the work it asks
    /// for to the empty list `fx`. Tab and Down move the focus to the next of
    /// the seven elements, BackTab and Up to the previous one (wrapping
    /// round), Enter on a text field to the next element; from a focus among
    /// the seven elements no key moves it out of them, and no key quits.
    pub fn handle_config_key(&mut self, key: Key, fx: &mut Vec<Effect>) -> (quit: bool)
        requires
            old(self).wf(),
            old(fx)@.len() == 0,
        ensures
            (final(self)@, quit, effects_view(final(fx)@)) == old(self)@.config_key(key),
            !quit,
            old(self).config_focus <= CONFIG_MAX_FOCUS ==> final(self).config_focus
                <= CONFIG_MAX_FOCUS,
            key.code == KeyCode::Tab || key.code == KeyCode::Down ==> final(self).config_focus == (
            old(self).config_focus + 1) % 7,
            key.code == KeyCode::BackTab || key.code == KeyCode::Up ==> final(self).config_focus
                == (if old(self).config_focus == 0 {
                6
            } else {
                old(self).config_focus - 1
            }),
            key.code == KeyCode::Enter && old(self).config_focus <= 3 ==> final(self).config_focus
                == old(self).config_focus + 1,
    {
        let ghost pre = self@;
        let code = key.code;
        let f = self.config_focus;
        if code == KeyCode::Esc {
            self.save_config(fx);
            self.persist_state(fx);
            self.edit.mod_input = String::new();
            self.screen = Screen::Main;
            assert(effects_view(fx@) =~= seq![EffectView::SaveConfig, EffectView::SaveConfig]);
        } else if code == KeyCode::Tab || code == KeyCode::Down {
            self.config_focus = (f + 1) % (CONFIG_MAX_FOCUS + 1);
        } else if code == KeyCode::BackTab || code == KeyCode::Up {
            self.config_focus = if f == 0 {
                CONFIG_MAX_FOCUS
            } else {
                f - 1
            };
        } else if code == KeyCode::Enter {
            if f <= 3 {
                self.config_focus = (f + 1) % (CONFIG_MAX_FOCUS + 1);
            } else if f == 4 {
                if self.edit.mod_input.as_str().unicode_len() > 0 {
                    let item = self.edit.mod_input.clone();
                    self.edit.mods.push(item);
                    self.edit.mod_input = String::new();
                    assert(self@.edit.mods =~= pre.edit.mods.push(pre.edit.mod_input));
                }
            } else if f == 5 {
                push_effect(fx, Effect::OpenGameDirectory);
                assert(effects_view(fx@) =~= seq![EffectView::OpenGameDirectory]);
            } else if f == 6 {
                self.save_config(fx);
                self.persist_state(fx);
                self.screen = Screen::Main;
                assert(effects_view(fx@) =~= seq![EffectView::SaveConfig, EffectView::SaveConfig]);
            }
        } else if (code == KeyCode::Char('d') || code == KeyCode::Char('D')) && key.modifiers
            == Modifiers::Control {
            if f == 4 {
                let ghost before = self.edit.mods@;
                let _ = self.edit.mods.pop();
                assert(self@.edit.mods =~= backspaced_list(strings_view(before)));
            }
        } else if let KeyCode::Char(c) = code {
            self.type_config_char(c);
        } else if code == KeyCode::Backspace {
            self.backspace_config();
        }
        assert(effects_view(fx@) =~= pre.config_key(key).2);
        false
    }

    fn type_config_char(&mut self, c: char)
        requires
            old(self).wf(),
        ensures
            final(self)@ == old(self)@.typed(c),
    {
        let ghost pre = self@;
        let f = self.config_focus;
        if f == 0 {
            if !self.edit.field_dirty[0] {
                self.edit.username = String::new();
                self.edit.field_dirty[0] = true;
            }
            self.edit.username.push(c);
        } else if f == 1 {
            if !self.edit.field_dirty[1] {
                self.edit.min_ram = String::new();
                self.edit.field_dirty[1] = true;
            }
            self.edit.min_ram.push(c);
        } else if f == 2 {
            if !self.edit.field_dirty[2] {
                self.edit.max_ram = String::new();
                self.edit.field_dirty[2] = true;
            }
            self.edit.max_ram.push(c);
        } else if f == 3 {
            if !self.edit.field_dirty[3] {
                self.edit.jvm_args = String::new();
                self.edit.field_dirty[3] = true;
            }
            self.edit.jvm_args.push(c);
        } else if f == 4 {
            if !self.edit.field_dirty[4] {
                self.edit.mod_input = String::new();
                self.edit.field_dirty[4] = true;
            }
            self.edit.mod_input.push(c);
        }
        assert(self@.edit.field_dirty =~= pre.typed(c).edit.field_dirty);
        assert(self@.edit.username =~= pre.typed(c).edit.username);
        assert(self@.edit.min_ram =~= pre.typed(c).edit.min_ram);
        assert(self@.edit.max_ram =~= pre.typed(c).edit.max_ram);
        assert(self@.edit.jvm_args =~= pre.typed(c).edit.jvm_args);
        assert(self@.edit.mod_input =~= pre.typed(c).edit.mod_input);
    }

    fn backspace_config(&mut self)
        ensures
            final(self)@ == old(self)@.backspace(),
    {
        let f = self.config_focus;
        if f == 0 {
            let _ = self.edit.username.pop();
        } else if f == 1 {
            let _ = self.edit.min_ram.pop();
        } else if f == 2 {
            let _ = self.edit.max_ram.pop();
        } else if f == 3 {
            let _ = self.edit.jvm_args.pop();
        } else if f == 4 {
            let _ = self.edit.mod_input.pop();
        }
    }

    fn handle_installing_key(&mut self, key: Key, fx: &mut Vec<Effect>) -> (quit: bool)
        requires
            old(fx)@.len() == 0,
        ensures
            (final(self)@, quit, effects_view(final(fx)@)) == old(self)@.installing_key(key),
    {
        if (key.code == KeyCode::Char('c') || key.code == KeyCode::Char('C')) && key.modifiers
            == Modifiers::Control {
            push_effect(fx, Effect::CancelLaunch);
            self.install_status = String::new();
            self.install_progress = Progress::Fraction { done: 0, total: 1 };
            self.install_current = 0;
            self.install_total = 0;
            self.screen = Screen::Main;
            assert(effects_view(fx@) =~= seq![EffectView::CancelLaunch]);
        } else {
            assert(effects_view(fx@) =~= Seq::<EffectView>::empty());
        }
        false
    }
}

/// What the event loop does after a report of the launch task was handled.
#[derive(PartialEq, Eq, Structural, Clone, Copy, Debug)]
pub enum AfterReport {
    /// Keep reading reports.
    Continue,
    /// The installation goes on: advance the estimate and redraw.
    Redraw,
    /// The installation screen was left (finished, failed or cancelled):
    /// redraw and stop reading reports for now.
    LeftInstall,
    /// The game has started: redraw, hand the terminal back, and wait for
    /// the game to end.
    GameStarted,
}

/// The step of the event loop after a report, given whether the installation
/// screen was shown before the report and the screen shown after it.
pub fn after_report(was_installing: bool, screen: Screen) -> (r: AfterReport)
    ensures
        r == (if screen == Screen::Installing {
            AfterReport::Redraw
        } else if was_installing {
            if screen == Screen::GameRunning {
                AfterReport::GameStarted
            } else {
                AfterReport::LeftInstall
            }
        } else {
            AfterReport::Continue
        }),
{
    if screen == Screen::Installing {
        AfterReport::Redraw
    } else if was_installing {
        if screen == Screen::GameRunning {
            AfterReport::GameStarted
        } else {
            AfterReport::LeftInstall
        }
    } else {
        AfterReport::Continue
    }
}

impl App {
    /// Back on the main screen once the game has ended.
    pub fn return_from_game(&mut self)
        ensures
            final(self)@ == (AppView { screen: Screen::Main, ..old(self)@ }),
    {
        self.screen = Screen::Main;
    }
}

/// What the terminal shows when the game has ended, for the report that
/// ended it (`None` when the launch task stopped without a report).
pub open spec fn game_end_text(event: Option<McEvent>) -> Seq<Seq<char>> {
    match event {
        Some(McEvent::ProcessExited { exit_code }) => seq![
            "  Minecraft exited with code "@ + signed_decimal(exit_code as int),
            "  Returning to launcher...\n"@,
        ],
        Some(McEvent::Done) => seq!["  Minecraft closed.\n"@],
        Some(McEvent::Error(e)) => seq!["  Error: "@ + e@ + "\n"@],
        Some(_) => Seq::empty(),
        None => seq!["  Launcher task ended unexpectedly.\n"@],
    }
}

/// The lines printed when the game has ended.
pub fn game_end_lines(event: &Option<McEvent>) -> (r: Vec<String>)
    ensures
        strings_view(r@) == game_end_text(*event),
{
    let mut r: Vec<String> = Vec::new();
    match event {
        Some(McEvent::ProcessExited { exit_code }) => {
            let code = signed_decimal_string(*exit_code);
            r.push(concat_str("  Minecraft exited with code ", code.as_str()));
            r.push(owned("  Returning to launcher...\n"));
        },
        Some(McEvent::Done) => {
            r.push(owned("  Minecraft closed.\n"));
        },
        Some(McEvent::Error(e)) => {
            let a = concat_str("  Error: ", e.as_str());
            r.push(concat_str(a.as_str(), "\n"));
        },
        Some(_) => {},
        None => {
            r.push(owned("  Launcher task ended unexpectedly.\n"));
        },
    }
    assert(strings_view(r@) =~= game_end_text(*event));
    r
}

/// Whether the wait for a running game ends with this report: it ends when
/// the game exits, when the launch task finishes or fails, and when the task
/// stops without a report (`None`); other reports are handled and the wait
/// goes on.
pub fn ends_wait(event: &Option<McEvent>) -> (r: bool)
    ensures
        r == match *event {
            None => true,
            Some(McEvent::ProcessExited { .. }) => true,
            Some(McEvent::Done) => true,
            Some(McEvent::Error(_)) => true,
            Some(_) => false,
        },
{
    match event {
        None => true,
        Some(McEvent::ProcessExited { .. }) => true,
        Some(McEvent::Done) => true,
        Some(McEvent::Error(_)) => true,
        Some(_) => false,
    }
}

/// The list without its last element, if it has one.
pub open spec fn backspaced_list(v: Seq<Seq<char>>) -> Seq<Seq<char>> {
    if v.len() > 0 {
        v.drop_last()
    } else {
        v
    }
}

/// The versions of `versions` that are listed, in order.
fn listed_refs(versions: &Vec<VersionEntry>, show_snapshots: bool) -> (r: Vec<&VersionEntry>)
    ensures
        r@.map_values(|v: &VersionEntry| v@) == listed(versions_view(versions@), show_snapshots),
{
    let mut r: Vec<&VersionEntry> = Vec::new();
    let n = versions.len();
    let ghost vv = versions_view(versions@);
    for i in 0..n
        invariant
            n == versions@.len(),
            vv == versions_view(versions@),
            r@.map_values(|v: &VersionEntry| v@) == listed(vv.take(i as int), show_snapshots),
    {
        let v = &versions[i];
        assert(vv.take(i + 1).drop_last() =~= vv.take(i as int));
        assert(vv.take(i + 1).last() == v@);
        let keep = show_snapshots || same_text(v.version_type.as_str(), "release");
        if keep {
            let ghost before = r@;
            r.push(v);
            assert(r@.map_values(|v: &VersionEntry| v@) =~= before.map_values(
                |v: &VersionEntry| v@,
            ).push(v@));
        }
    }
    assert(vv.take(n as int) =~= vv);
    r
}

fn position_of_version(versions: &Vec<&VersionEntry>, id: &String) -> (r: Option<usize>)
    ensures
        match r {
            Some(i) => index_of_version(versions@.map_values(|v: &VersionEntry| v@), id@) == Some(
                i as nat,
            ),
            None => index_of_version(versions@.map_values(|v: &VersionEntry| v@), id@) is None,
        },
{
    let ghost vv = versions@.map_values(|v: &VersionEntry| v@);
    let n = versions.len();
    let mut i: usize = 0;
    assert(vv.skip(0) =~= vv);
    while i < n
        invariant
            n == versions@.len(),
            vv == versions@.map_values(|v: &VersionEntry| v@),
            0 <= i <= n,
            index_of_version(vv, id@) == match index_of_version(vv.skip(i as int), id@) {
                Some(k) => Some((k + i) as nat),
                None => None,
            },
        decreases n - i,
    {
        let ghost rest = vv.skip(i as int);
        assert(rest[0] == vv[i as int]);
        assert(rest.drop_first() =~= vv.skip(i + 1));
        if versions[i].id == *id {
            return Some(i);
        }
        i = i + 1;
    }
    assert(vv.skip(n as int).len() == 0);
    None
}

fn position_of_loader(name: &str) -> (r: Option<usize>)
    ensures
        match r {
            Some(i) => index_of_loader(loader_names(), name@) == Some(i as nat),
            None => index_of_loader(loader_names(), name@) is None,
        },
{
    let names = loader_list();
    let ghost ln = loader_names();
    let mut j: usize = 0;
    assert(ln.skip(0) =~= ln);
    while j < 5
        invariant
            0 <= j <= 5,
            names@.len() == 5,
            forall|k: int| 0 <= k < 5 ==> (#[trigger] names@[k])@ == loader_names()[k],
            ln == loader_names(),
            index_of_loader(ln, name@) == match index_of_loader(ln.skip(j as int), name@) {
                Some(k) => Some((k + j) as nat),
                None => None,
            },
        decreases 5 - j,
    {
        let ghost rest = ln.skip(j as int);
        assert(rest[0] == ln[j as int]);
        assert(rest.drop_first() =~= ln.skip(j + 1));
        if same_text(names[j], name) {
            return Some(j);
        }
        j = j + 1;
    }
    assert(ln.skip(5).len() == 0);
    None
}

/// A found version index is in range.
pub proof fn lemma_index_of_version_bound(vs: Seq<VersionView>, id: Seq<char>)
    ensures
        index_of_version(vs, id) matches Some(i) ==> i < vs.len(),
    decreases vs.len(),
{
    if vs.len() > 0 {
        lemma_index_of_version_bound(vs.drop_first(), id);
    }
}

/// A found loader index is in range.
pub proof fn lemma_index_of_loader_bound(names: Seq<Seq<char>>, name: Seq<char>)
    ensures
        index_of_loader(names, name) matches Some(i) ==> i < names.len(),
    decreases names.len(),
{
    if names.len() > 0 {
        lemma_index_of_loader_bound(names.drop_first(), name);
    }
}

fn push_effect(fx: &mut Vec<Effect>, e: Effect)
    ensures
        final(fx)@ == old(fx)@.push(e),
        effects_view(final(fx)@) == effects_view(old(fx)@).push(e@),
{
    fx.push(e);
    assert(effects_view(fx@) =~= effects_view(old(fx)@).push(e@));
}

// ── Laws ──────────────────────────────────────────────────────────────────
/// Every key press keeps the state well formed.
pub proof fn lemma_key_step_wf(a: AppView, key: Key, theme_count: nat)
    requires
        a.wf(),
        a.screen == Screen::Main && key.code == KeyCode::Tab ==> theme_count > 0,
    ensures
        a.key_step(key, theme_count).0.wf(),
{
    lemma_listed_len(a.versions, a.show_snapshots);
    if a.screen == Screen::Config {
        let c = key.code;
        if c is Char {
            assert(a.typed(c->Char_0).edit.field_dirty.len() == 5);
        }
    }
}

/// The listed versions are among the known ones.
pub proof fn lemma_listed_len(vs: Seq<VersionView>, show: bool)
    ensures
        listed(vs, show).len() <= vs.len(),
    decreases vs.len(),
{
    if vs.len() > 0 {
        lemma_listed_len(vs.drop_last(), show);
    }
}

} // verus!
