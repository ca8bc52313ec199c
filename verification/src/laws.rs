//! Properties of the launcher that span several key presses or reports.
use vstd::prelude::*;
use crate::app::{
    jvm_arg_list, listed, trimmed_nonblank, AppView, AuthEvent, ConfigView, EditView, EffectView,
    Key, KeyCode, Modifiers, Progress, Screen, VersionView, CONFIG_MAX_FOCUS,
};
use crate::mc::{loader_names, loader_version_choice, Loader, LoaderListing, McEvent};
use crate::text::{is_space, split_on, trim, trim_end, trim_start};

verus! {

/// A key pressed without modifiers.
pub open spec fn plain(code: KeyCode) -> Key {
    Key { code: code, modifiers: Modifiers::Plain }
}

/// A key pressed with Control.
pub open spec fn control(code: KeyCode) -> Key {
    Key { code: code, modifiers: Modifiers::Control }
}

/// The state after pressing `key` `n` times.
pub open spec fn pressed_times(a: AppView, key: Key, theme_count: nat, n: nat) -> AppView
    decreases n,
{
    if n == 0 {
        a
    } else {
        pressed_times(a, key, theme_count, (n - 1) as nat).key_step(key, theme_count).0
    }
}

/// The state after typing the characters of `w`, one key each.
pub open spec fn typed_word(a: AppView, w: Seq<char>) -> AppView
    decreases w.len(),
{
    if w.len() == 0 {
        a
    } else {
        typed_word(a, w.drop_last()).key_step(plain(KeyCode::Char(w.last())), 1).0
    }
}

/// While the game runs, any key makes the launcher quit, with nothing else done.
pub proof fn law_game_running_key_quits(a: AppView, key: Key, theme_count: nat)
    requires
        a.screen == Screen::GameRunning,
    ensures
        a.key_step(key, theme_count) == (a, true, Seq::<EffectView>::empty()),
{
}

/// On the configuration screen, Tab pressed seven times, whatever the
/// modifiers, comes back to the element it started from, with nothing else
/// changed (through `App::handle_key` and `App::handle_config_key` alike).
pub proof fn law_config_tab_cycles(a: AppView, m: Modifiers, theme_count: nat)
    requires
        a.screen == Screen::Config,
        a.config_focus <= CONFIG_MAX_FOCUS,
    ensures
        pressed_times(a, Key { code: KeyCode::Tab, modifiers: m }, theme_count, 7) == a,
{
    let k = Key { code: KeyCode::Tab, modifiers: m };
    assert forall|n: nat| n <= 7 implies #[trigger] pressed_times(a, k, theme_count, n) == (
    AppView { config_focus: ((a.config_focus + n) % 7) as usize, ..a }) by {
        lemma_tabs(a, m, theme_count, n);
    }
    assert(((a.config_focus + 7) % 7) as usize == a.config_focus);
}

proof fn lemma_tabs(a: AppView, m: Modifiers, theme_count: nat, n: nat)
    requires
        a.screen == Screen::Config,
        a.config_focus <= CONFIG_MAX_FOCUS,
    ensures
        pressed_times(a, Key { code: KeyCode::Tab, modifiers: m }, theme_count, n) == (AppView {
            config_focus: ((a.config_focus + n) % 7) as usize,
            ..a
        }),
    decreases n,
{
    if n > 0 {
        lemma_tabs(a, m, theme_count, (n - 1) as nat);
        let f = (a.config_focus + n - 1) % 7;
        assert((f + 1) % 7 == (a.config_focus + n) % 7);
    }
}

/// Opening the configuration screen and leaving it with Esc, without typing,
/// keeps the settings that the screen edits, and saves them.
pub proof fn law_config_open_close_keeps_settings(a: AppView, theme_count: nat)
    requires
        a.screen == Screen::Main,
        a.wf(),
    ensures
        ({
            let b = a.key_step(control(KeyCode::Char('p')), theme_count).0;
            let (c, quit, fx) = b.key_step(plain(KeyCode::Esc), theme_count);
            &&& b.screen == Screen::Config
            &&& c.screen == Screen::Main
            &&& !quit
            &&& fx == seq![EffectView::SaveConfig, EffectView::SaveConfig]
            &&& c.config.username == a.config.username
            &&& c.config.min_ram == a.config.min_ram
            &&& c.config.max_ram == a.config.max_ram
            &&& c.config.jvm_args == a.config.jvm_args
            &&& c.config.mods == a.config.mods
            &&& c.config.show_snapshots == a.show_snapshots
            &&& c.config.last_version == a.current_version()
            &&& c.config.last_loader == a.loader_name()
        }),
{
}

/// Typing a word into the player-name field of a freshly opened
/// configuration screen replaces the old name with the word.
pub proof fn law_typing_replaces_name(a: AppView, w: Seq<char>, theme_count: nat)
    requires
        a.screen == Screen::Main,
        a.wf(),
        w.len() > 0,
    ensures
        typed_word(a.key_step(control(KeyCode::Char('p')), theme_count).0, w).edit.username == w,
{
    let b = a.key_step(control(KeyCode::Char('p')), theme_count).0;
    lemma_typed_word(b, w);
}

/// A player name typed on the configuration screen is the one in the
/// settings once the screen is left with Esc, and the settings are saved.
pub proof fn law_typed_name_is_saved(a: AppView, w: Seq<char>, theme_count: nat)
    requires
        a.screen == Screen::Main,
        a.wf(),
        w.len() > 0,
    ensures
        ({
            let b = typed_word(a.key_step(control(KeyCode::Char('p')), theme_count).0, w);
            let (c, quit, fx) = b.key_step(plain(KeyCode::Esc), theme_count);
            &&& c.config.username == w
            &&& c.screen == Screen::Main
            &&& !quit
            &&& fx == seq![EffectView::SaveConfig, EffectView::SaveConfig]
        }),
{
    let b0 = a.key_step(control(KeyCode::Char('p')), theme_count).0;
    lemma_typed_word(b0, w);
}

proof fn lemma_typed_word(b: AppView, w: Seq<char>)
    requires
        b.screen == Screen::Config,
        b.config_focus == 0,
        b.edit.field_dirty.len() == 5,
        !b.edit.field_dirty[0],
    ensures
        w.len() > 0 ==> typed_word(b, w).edit.username == w,
        w.len() > 0 ==> typed_word(b, w).edit.field_dirty[0],
        typed_word(b, w).screen == Screen::Config,
        typed_word(b, w).config_focus == 0,
        typed_word(b, w).edit.field_dirty.len() == 5,
        w.len() == 0 ==> typed_word(b, w) == b,
    decreases w.len(),
{
    if w.len() > 0 {
        lemma_typed_word(b, w.drop_last());
        if w.len() == 1 {
            assert(w.drop_last().len() == 0);
            assert(seq![w.last()] =~= w);
        } else {
            assert(w.drop_last().push(w.last()) =~= w);
        }
    }
}

/// Control+V pressed twice on the main screen shows the list as it was,
/// with the first version selected.
pub proof fn law_snapshot_toggle_twice(a: AppView, theme_count: nat)
    requires
        a.screen == Screen::Main,
    ensures
        pressed_times(a, control(KeyCode::Char('v')), theme_count, 2) == (AppView {
            selected_version: 0,
            ..a
        }),
{
    reveal_with_fuel(pressed_times, 3);
}

/// Control+M pressed twice on the main screen leaves the sign-in mode as
/// it was, and saves the settings each time.
pub proof fn law_online_toggle_twice(a: AppView, theme_count: nat)
    requires
        a.screen == Screen::Main,
    ensures
        ({
            let (b, _, fx1) = a.key_step(control(KeyCode::Char('m')), theme_count);
            let (c, _, fx2) = b.key_step(control(KeyCode::Char('M')), theme_count);
            &&& b.config.online_mode == !a.config.online_mode
            &&& c == a
            &&& fx1 == seq![EffectView::SaveConfig]
            &&& fx2 == seq![EffectView::SaveConfig]
        }),
{
    let b = a.key_step(control(KeyCode::Char('m')), theme_count).0;
    assert(b.config == crate::app::ConfigView { online_mode: !a.config.online_mode, ..a.config });
    assert(b.key_step(control(KeyCode::Char('M')), theme_count).0.config == a.config);
}

/// A launched game that ends brings the launcher back to its main screen,
/// remembering the version and loader that were played.
pub proof fn law_game_end_returns_to_main(a: AppView, pid: u32, exit_code: i32)
    ensures
        ({
            let b = a.mc_event_step(McEvent::Launched { pid }).0;
            let (c, fx) = b.mc_event_step(McEvent::ProcessExited { exit_code });
            &&& b.screen == Screen::GameRunning
            &&& c.screen == Screen::Main
            &&& c.config.last_version == a.current_version()
            &&& c.config.last_loader == a.loader_name()
            &&& fx == seq![EffectView::SaveConfig]
        }),
{
}

/// Left and Right on the main screen (`App::handle_main_key`, which
/// `App::handle_key` calls there), with any modifiers, move through the
/// loaders without leaving the list, clear the error shown, and change
/// nothing else.
pub proof fn law_left_right_bounds(a: AppView, key: Key, theme_count: nat)
    requires
        a.screen == Screen::Main,
        a.wf(),
        key.code == KeyCode::Left || key.code == KeyCode::Right,
    ensures
        a.key_step(key, theme_count) == a.main_key(key, theme_count),
        ({
            let (b, quit, fx) = a.key_step(key, theme_count);
            &&& !quit
            &&& fx == Seq::<EffectView>::empty()
            &&& b.error_message is None
            &&& b.loader_idx < loader_names().len()
            &&& key.code == KeyCode::Left ==> b.loader_idx == (if a.loader_idx > 0 {
                a.loader_idx - 1
            } else {
                0
            })
            &&& key.code == KeyCode::Right ==> b.loader_idx == (if a.loader_idx + 1
                < loader_names().len() {
                a.loader_idx + 1
            } else {
                loader_names().len() - 1
            })
            &&& b == AppView { loader_idx: b.loader_idx, error_message: None, ..a }
        }),
{
}

/// On the configuration screen (`App::handle_config_key`, which
/// `App::handle_key` calls there), Tab and Down move the focus to the next of
/// the seven elements, BackTab and Up to the previous one (wrapping round),
/// Enter on a text field to the next element; no key moves the focus out of
/// the seven elements, and no key quits.
pub proof fn law_config_focus_moves(a: AppView, key: Key, theme_count: nat)
    requires
        a.screen == Screen::Config,
        a.config_focus <= CONFIG_MAX_FOCUS,
    ensures
        a.key_step(key, theme_count) == a.config_key(key),
        ({
            let (b, quit, _) = a.key_step(key, theme_count);
            let f = a.config_focus;
            &&& !quit
            &&& b.config_focus <= CONFIG_MAX_FOCUS
            &&& (key.code == KeyCode::Tab || key.code == KeyCode::Down) ==> b.config_focus == (f
                + 1) % 7
            &&& (key.code == KeyCode::BackTab || key.code == KeyCode::Up) ==> b.config_focus == (
            if f == 0 {
                6
            } else {
                f - 1
            })
            &&& key.code == KeyCode::Enter && f <= 3 ==> b.config_focus == f + 1
        }),
{
}

/// On the configuration screen, Tab then BackTab, Down then Up, and Up then
/// Down, whatever the modifiers, each leave the state as it was, focus
/// included: through `App::handle_config_key` and through `App::handle_key`.
pub proof fn law_config_focus_round_trips(
    a: AppView,
    m1: Modifiers,
    m2: Modifiers,
    theme_count: nat,
)
    requires
        a.screen == Screen::Config,
        a.config_focus <= CONFIG_MAX_FOCUS,
    ensures
        a.config_key(Key { code: KeyCode::Tab, modifiers: m1 }).0.config_key(
            Key { code: KeyCode::BackTab, modifiers: m2 },
        ).0 == a,
        a.config_key(Key { code: KeyCode::Down, modifiers: m1 }).0.config_key(
            Key { code: KeyCode::Up, modifiers: m2 },
        ).0 == a,
        a.config_key(Key { code: KeyCode::Up, modifiers: m1 }).0.config_key(
            Key { code: KeyCode::Down, modifiers: m2 },
        ).0 == a,
        a.key_step(Key { code: KeyCode::Tab, modifiers: m1 }, theme_count).0.key_step(
            Key { code: KeyCode::BackTab, modifiers: m2 },
            theme_count,
        ).0 == a,
        a.key_step(Key { code: KeyCode::Down, modifiers: m1 }, theme_count).0.key_step(
            Key { code: KeyCode::Up, modifiers: m2 },
            theme_count,
        ).0 == a,
        a.key_step(Key { code: KeyCode::Up, modifiers: m1 }, theme_count).0.key_step(
            Key { code: KeyCode::Down, modifiers: m2 },
            theme_count,
        ).0 == a,
{
}

/// At start-up the version used last is selected again when it is in the
/// list as shown (ids being unique is not needed: the first one listed is
/// taken).
pub proof fn law_start_selects_remembered_version(
    config: crate::app::ConfigView,
    versions: Seq<crate::app::VersionView>,
)
    requires
        exists|i: int|
            0 <= i < listed(versions, config.show_snapshots).len() && (#[trigger] listed(
                versions,
                config.show_snapshots,
            )[i]).id == config.last_version,
        listed(versions, config.show_snapshots).len() <= usize::MAX,
    ensures
        crate::app::initial_state(config, versions).current_version() == config.last_version,
{
    let l = listed(versions, config.show_snapshots);
    let i = choose|i: int| 0 <= i < l.len() && (#[trigger] l[i]).id == config.last_version;
    lemma_index_found(l, config.last_version, i);
}

proof fn lemma_index_found(l: Seq<crate::app::VersionView>, id: Seq<char>, i: int)
    requires
        0 <= i < l.len(),
        l[i].id == id,
    ensures
        crate::app::index_of_version(l, id) matches Some(k) && k < l.len() && l[k as int].id == id,
    decreases l.len(),
{
    if l[0].id != id {
        lemma_index_found(l.drop_first(), id, i - 1);
    }
}

/// Up and Down keep a selection that is inside the list inside it.
pub proof fn law_navigation_stays_in_list(a: AppView, key: Key, theme_count: nat)
    requires
        a.screen == Screen::Main,
        a.selected_version < a.listed_versions().len(),
        key.code == KeyCode::Up || key.code == KeyCode::Down,
    ensures
        a.key_step(key, theme_count).0.selected_version < a.listed_versions().len(),
        a.key_step(key, theme_count).0.listed_versions() == a.listed_versions(),
{
}

/// Down then Up, from a selection that is not the last one, comes back to it.
pub proof fn law_down_then_up(a: AppView, theme_count: nat)
    requires
        a.screen == Screen::Main,
        a.selected_version + 1 < a.listed_versions().len(),
        a.selected_version < usize::MAX,
    ensures
        a.key_step(plain(KeyCode::Down), theme_count).0.key_step(
            plain(KeyCode::Up),
            theme_count,
        ).0.selected_version == a.selected_version,
{
    let b = a.key_step(plain(KeyCode::Down), theme_count).0;
    assert(b.selected_version == a.selected_version + 1);
    assert(b.listed_versions() == a.listed_versions());
    assert(b.screen == Screen::Main);
}

/// Right then Left, from a loader that is not the last one, comes back to it.
pub proof fn law_right_then_left(a: AppView, theme_count: nat)
    requires
        a.screen == Screen::Main,
        a.loader_idx < 4,
    ensures
        a.key_step(plain(KeyCode::Right), theme_count).0.key_step(
            plain(KeyCode::Left),
            theme_count,
        ).0.loader_idx == a.loader_idx,
{
}

/// Tab on the main screen pressed once per theme comes back to the theme in
/// use, and the settings remember it.
pub proof fn law_theme_cycle_returns(a: AppView, theme_count: nat)
    requires
        a.screen == Screen::Main,
        theme_count > 0,
        theme_count <= usize::MAX,
        a.theme_idx < theme_count,
    ensures
        pressed_times(a, plain(KeyCode::Tab), theme_count, theme_count).theme_idx == a.theme_idx,
        pressed_times(a, plain(KeyCode::Tab), theme_count, theme_count).config.theme
            == a.theme_idx,
{
    lemma_theme_steps(a, theme_count, theme_count);
    assert((a.theme_idx + theme_count) % (theme_count as int) == a.theme_idx) by (nonlinear_arith)
        requires
            a.theme_idx < theme_count,
            theme_count > 0,
    ;
}

proof fn lemma_theme_steps(a: AppView, theme_count: nat, n: nat)
    requires
        a.screen == Screen::Main,
        theme_count > 0,
        theme_count <= usize::MAX,
        a.theme_idx < theme_count,
    ensures
        pressed_times(a, plain(KeyCode::Tab), theme_count, n).theme_idx == (a.theme_idx + n) % (
        theme_count as int),
        n > 0 ==> pressed_times(a, plain(KeyCode::Tab), theme_count, n).config.theme == (
        a.theme_idx + n) % (theme_count as int),
        pressed_times(a, plain(KeyCode::Tab), theme_count, n).screen == Screen::Main,
    decreases n,
{
    if n == 0 {
        assert((a.theme_idx as int) % (theme_count as int) == a.theme_idx) by (nonlinear_arith)
            requires
                a.theme_idx < theme_count,
        ;
    } else {
        lemma_theme_steps(a, theme_count, (n - 1) as nat);
        let m = theme_count as int;
        let x = a.theme_idx + n - 1;
        let t = x % m;
        assert(0 <= t < m);
        assert((t + 1) % m == (a.theme_idx + n) % m) by {
            vstd::arithmetic::div_mod::lemma_add_mod_noop(x, 1, m);
            vstd::arithmetic::div_mod::lemma_mod_twice(x, m);
            if m == 1 {
                assert(1int % 1 == 0);
                assert(t == 0);
            } else {
                vstd::arithmetic::div_mod::lemma_small_mod(1, m as nat);
                vstd::arithmetic::div_mod::lemma_small_mod(t as nat, m as nat);
            }
        }
        let p = pressed_times(a, plain(KeyCode::Tab), theme_count, (n - 1) as nat);
        assert(p.theme_idx == t);
        assert(pressed_times(a, plain(KeyCode::Tab), theme_count, n) == p.key_step(
            plain(KeyCode::Tab),
            theme_count,
        ).0);
    }
}

/// Quitting from the main screen remembers the selected version and loader
/// and saves the settings.
pub proof fn law_quit_remembers_selection(a: AppView, theme_count: nat)
    requires
        a.screen == Screen::Main,
    ensures
        ({
            let (b, quit, fx) = a.key_step(plain(KeyCode::Char('q')), theme_count);
            &&& quit
            &&& b.config.last_version == a.current_version()
            &&& b.config.last_loader == a.loader_name()
            &&& fx == seq![EffectView::SaveConfig]
        }),
{
}

/// `O` on the main screen launches the selected version offline, whatever
/// the settings say, and shows the installation screen.
pub proof fn law_offline_launch(a: AppView, theme_count: nat)
    requires
        a.screen == Screen::Main,
    ensures
        ({
            let (b, quit, fx) = a.key_step(plain(KeyCode::Char('o')), theme_count);
            &&& !quit
            &&& b.screen == Screen::Installing
            &&& fx.len() == 1
            &&& fx[0] matches EffectView::Launch(r) && !r.online && r.version
                == a.current_version() && r.loader == a.loader_name()
        }),
{
}

/// A progress report with a known total sets the progress to the reported
/// fraction, and the counters to the reported numbers.
pub proof fn law_progress_report(a: AppView, current: u64, total: u64)
    requires
        total > 0,
    ensures
        ({
            let b = a.mc_event_step(McEvent::Progress { current, total }).0;
            &&& b.install_progress == Progress::Fraction { done: current, total: total }
            &&& b.install_current == current
            &&& b.install_total == total
            &&& b.install_has_real_progress
        }),
{
}

/// Once the launcher has reported sizes, time passing no longer replaces
/// the reported progress with an estimate.
pub proof fn law_real_progress_is_kept(a: AppView, current: u64, total: u64)
    requires
        total > 0,
    ensures
        a.mc_event_step(McEvent::Progress { current, total }).0.fake_progress_step()
            == a.mc_event_step(McEvent::Progress { current, total }).0,
{
}

/// A failed launch returns to the main screen and shows the error.
pub proof fn law_error_is_shown(a: AppView, e: String)
    ensures
        a.mc_event_step(McEvent::Error(e)).0.screen == Screen::Main,
        a.mc_event_step(McEvent::Error(e)).0.error_message == Some(e@),
{
}

/// The loaders in selector order.
pub open spec fn loader_order() -> Seq<crate::mc::Loader> {
    seq![
        crate::mc::Loader::Vanilla,
        crate::mc::Loader::Fabric,
        crate::mc::Loader::Quilt,
        crate::mc::Loader::NeoForge,
        crate::mc::Loader::Forge,
    ]
}

/// Each name the loader selector shows is read back as its own loader, so
/// the loader remembered in the settings is the one launched.
pub proof fn law_selector_names_parse_back(i: int)
    requires
        0 <= i < 5,
    ensures
        crate::mc::loader_named(crate::mc::loader_names()[i]) == loader_order()[i],
{
    reveal_strlit("Vanilla");
    reveal_strlit("Fabric");
    reveal_strlit("Quilt");
    reveal_strlit("NeoForge");
    reveal_strlit("Forge");
    assert("Vanilla"@[0] == 'V' && "Vanilla"@.len() == 7);
    assert("Fabric"@[0] == 'F' && "Fabric"@.len() == 6);
    assert("Quilt"@[0] == 'Q' && "Quilt"@.len() == 5);
    assert("NeoForge"@[0] == 'N' && "NeoForge"@.len() == 8);
    assert("Forge"@[0] == 'F' && "Forge"@.len() == 5);
}

// ── JVM arguments ─────────────────────────────────────────────────────────
proof fn lemma_trim_start_first(s: Seq<char>)
    ensures
        trim_start(s).len() > 0 ==> !is_space(trim_start(s)[0]),
        trim_start(s).len() <= s.len(),
        s.len() > 0 && !is_space(s[0]) ==> trim_start(s) == s,
    decreases s.len(),
{
    if s.len() > 0 && is_space(s[0]) {
        lemma_trim_start_first(s.drop_first());
    }
}

proof fn lemma_trim_end_prefix(s: Seq<char>)
    ensures
        trim_end(s).len() <= s.len(),
        trim_end(s) == s.take(trim_end(s).len() as int),
        trim_end(s).len() > 0 ==> !is_space(trim_end(s).last()),
    decreases s.len(),
{
    if s.len() > 0 && is_space(s.last()) {
        lemma_trim_end_prefix(s.drop_last());
        let t = trim_end(s.drop_last());
        assert(s.drop_last().take(t.len() as int) =~= s.take(t.len() as int));
    } else {
        assert(s.take(s.len() as int) =~= s);
    }
}

/// Trimming a trimmed text changes nothing.
pub proof fn lemma_trim_idempotent(s: Seq<char>)
    ensures
        trim(trim(s)) == trim(s),
{
    let u = trim_start(s);
    let t = trim_end(u);
    lemma_trim_start_first(s);
    lemma_trim_end_prefix(u);
    if t.len() > 0 {
        assert(t[0] == u[0]);
        lemma_trim_start_first(t);
        assert(trim_start(t) == t);
        assert(trim_end(t) == t) by {
            assert(!is_space(t.last()));
        }
    } else {
        assert(trim_start(t) == t);
    }
}

/// Each JVM argument taken from the settings is non-blank and has no
/// surrounding whitespace.
pub proof fn law_jvm_args_are_clean(s: Seq<char>)
    ensures
        forall|i: int|
            0 <= i < jvm_arg_list(s).len() ==> (#[trigger] jvm_arg_list(s)[i]).len() > 0 && trim(
                jvm_arg_list(s)[i],
            ) == jvm_arg_list(s)[i],
{
    lemma_trimmed_nonblank_clean(split_on(s, ','));
}

proof fn lemma_trimmed_nonblank_clean(parts: Seq<Seq<char>>)
    ensures
        forall|i: int|
            0 <= i < trimmed_nonblank(parts).len() ==> (#[trigger] trimmed_nonblank(parts)[i]).len()
                > 0 && trim(trimmed_nonblank(parts)[i]) == trimmed_nonblank(parts)[i],
    decreases parts.len(),
{
    if parts.len() > 0 {
        lemma_trimmed_nonblank_clean(parts.drop_last());
        lemma_trim_idempotent(parts.last());
        let r = trimmed_nonblank(parts.drop_last());
        assert forall|i: int| 0 <= i < trimmed_nonblank(parts).len() implies (
        #[trigger] trimmed_nonblank(parts)[i]).len() > 0 && trim(trimmed_nonblank(parts)[i])
            == trimmed_nonblank(parts)[i] by {
            if i < r.len() {
                assert(trimmed_nonblank(parts)[i] == r[i]);
            }
        }
    }
}

/// The listed versions are exactly the known ones when snapshots are shown.
pub proof fn law_all_listed_with_snapshots(vs: Seq<VersionView>)
    ensures
        listed(vs, true) == vs,
    decreases vs.len(),
{
    if vs.len() > 0 {
        law_all_listed_with_snapshots(vs.drop_last());
        assert(vs.drop_last().push(vs.last()) =~= vs);
    }
}

/// With snapshots hidden, the list shows exactly the versions whose type is
/// `"release"`, in their order: every listed version is a release, and
/// every release is listed.
pub proof fn law_hidden_snapshots_list_releases(vs: Seq<VersionView>)
    ensures
        listed(vs, false) == vs.filter(|v: VersionView| v.version_type == "release"@),
        forall|i: int|
            0 <= i < listed(vs, false).len() ==> (#[trigger] listed(vs, false)[i]).version_type
                == "release"@,
        forall|i: int|
            0 <= i < vs.len() && (#[trigger] vs[i]).version_type == "release"@ ==> listed(
                vs,
                false,
            ).contains(vs[i]),
{
    let pred = |v: VersionView| v.version_type == "release"@;
    lemma_listed_is_filter(vs);
    assert forall|i: int| 0 <= i < listed(vs, false).len() implies (#[trigger] listed(
        vs,
        false,
    )[i]).version_type == "release"@ by {
        vs.lemma_filter_pred(pred, i);
    }
    assert forall|i: int|
        0 <= i < vs.len() && (#[trigger] vs[i]).version_type == "release"@ implies listed(
        vs,
        false,
    ).contains(vs[i]) by {
        vs.lemma_filter_contains(pred, i);
    }
}

proof fn lemma_listed_is_filter(vs: Seq<VersionView>)
    ensures
        listed(vs, false) == vs.filter(|v: VersionView| v.version_type == "release"@),
    decreases vs.len(),
{
    reveal(Seq::filter);
    if vs.len() > 0 {
        lemma_listed_is_filter(vs.drop_last());
    } else {
        assert(vs =~= Seq::<VersionView>::empty());
    }
}

/// The text field of the configuration screen at focus `f` (0 to 3).
pub open spec fn edit_text(e: EditView, f: int) -> Seq<char> {
    if f == 0 {
        e.username
    } else if f == 1 {
        e.min_ram
    } else if f == 2 {
        e.max_ram
    } else {
        e.jvm_args
    }
}

/// The setting that the text field at focus `f` (0 to 3) edits.
pub open spec fn config_text(c: ConfigView, f: int) -> Seq<char> {
    if f == 0 {
        c.username
    } else if f == 1 {
        c.min_ram
    } else if f == 2 {
        c.max_ram
    } else {
        c.jvm_args
    }
}

/// Leaving the configuration screen, with Esc or with Enter on the Save
/// button, takes every edited value into the settings: player name, RAM
/// sizes, JVM arguments and mods; it shows the main screen and saves.
pub proof fn law_leaving_config_saves_edits(a: AppView, key: Key, theme_count: nat)
    requires
        a.screen == Screen::Config,
        key.code == KeyCode::Esc || (key.code == KeyCode::Enter && a.config_focus == 6),
    ensures
        ({
            let (b, quit, fx) = a.key_step(key, theme_count);
            &&& b.screen == Screen::Main
            &&& !quit
            &&& fx == seq![EffectView::SaveConfig, EffectView::SaveConfig]
            &&& b.config.username == a.edit.username
            &&& b.config.min_ram == a.edit.min_ram
            &&& b.config.max_ram == a.edit.max_ram
            &&& b.config.jvm_args == a.edit.jvm_args
            &&& b.config.mods == a.edit.mods
            &&& b.config.show_snapshots == a.show_snapshots
            &&& b.config.last_version == a.current_version()
            &&& b.config.last_loader == loader_names()[a.loader_idx as int]
        }),
{
}

/// A text typed into any of the four text fields of a freshly opened
/// configuration screen (reached with Tab) is the value in the settings once
/// the screen is left with Esc.
pub proof fn law_typed_field_is_saved(a: AppView, f: nat, w: Seq<char>, theme_count: nat)
    requires
        a.screen == Screen::Main,
        a.wf(),
        f <= 3,
        w.len() > 0,
    ensures
        ({
            let b = pressed_times(
                a.key_step(control(KeyCode::Char('p')), theme_count).0,
                plain(KeyCode::Tab),
                theme_count,
                f,
            );
            let c = typed_word(b, w);
            let d = c.key_step(plain(KeyCode::Esc), theme_count).0;
            &&& b.config_focus == f
            &&& edit_text(c.edit, f as int) == w
            &&& config_text(d.config, f as int) == w
            &&& d.screen == Screen::Main
        }),
{
    let b0 = a.key_step(control(KeyCode::Char('p')), theme_count).0;
    lemma_tabs(b0, Modifiers::Plain, theme_count, f);
    let b = pressed_times(b0, plain(KeyCode::Tab), theme_count, f);
    assert(b.config_focus == f);
    lemma_typed_field(b, f as int, w);
}

/// The JVM arguments typed into their field (Tab three times) of a freshly
/// opened configuration screen replace the old ones in the settings, when the
/// screen is left with Esc and when it is left with the Save button (Tab
/// three times more, then Enter).
pub proof fn law_typed_jvm_args_are_saved(a: AppView, w: Seq<char>, theme_count: nat)
    requires
        a.screen == Screen::Main,
        a.wf(),
        w.len() > 0,
    ensures
        ({
            let b = pressed_times(
                a.key_step(control(KeyCode::Char('p')), theme_count).0,
                plain(KeyCode::Tab),
                theme_count,
                3,
            );
            let c = typed_word(b, w);
            let by_esc = c.key_step(plain(KeyCode::Esc), theme_count).0;
            let on_save = pressed_times(c, plain(KeyCode::Tab), theme_count, 3);
            let by_save = on_save.key_step(plain(KeyCode::Enter), theme_count).0;
            &&& by_esc.config.jvm_args == w
            &&& by_esc.screen == Screen::Main
            &&& on_save.config_focus == 6
            &&& by_save.config.jvm_args == w
            &&& by_save.screen == Screen::Main
        }),
{
    law_typed_field_is_saved(a, 3, w, theme_count);
    let b0 = a.key_step(control(KeyCode::Char('p')), theme_count).0;
    lemma_tabs(b0, Modifiers::Plain, theme_count, 3);
    let b = pressed_times(b0, plain(KeyCode::Tab), theme_count, 3);
    lemma_typed_field(b, 3, w);
    let c = typed_word(b, w);
    lemma_tabs(c, Modifiers::Plain, theme_count, 3);
}

proof fn lemma_typed_field(b: AppView, f: int, w: Seq<char>)
    requires
        b.screen == Screen::Config,
        0 <= f <= 3,
        b.config_focus == f,
        b.edit.field_dirty.len() == 5,
        !b.edit.field_dirty[f],
    ensures
        w.len() > 0 ==> edit_text(typed_word(b, w).edit, f) == w,
        w.len() > 0 ==> typed_word(b, w).edit.field_dirty[f],
        typed_word(b, w).screen == Screen::Config,
        typed_word(b, w).config_focus == f,
        typed_word(b, w).edit.field_dirty.len() == 5,
        w.len() == 0 ==> typed_word(b, w) == b,
    decreases w.len(),
{
    if w.len() > 0 {
        lemma_typed_field(b, f, w.drop_last());
        if w.len() == 1 {
            assert(w.drop_last().len() == 0);
            assert(seq![w.last()] =~= w);
        } else {
            assert(w.drop_last().push(w.last()) =~= w);
        }
    }
}

/// A launch started from the main screen (Enter with sign-in off, or `O`)
/// asks for exactly one launch, of the selected version with the selected
/// loader, carrying the settings' RAM sizes, JVM arguments, player name and
/// mods.
pub proof fn law_launch_carries_settings(a: AppView, key: Key, theme_count: nat)
    requires
        a.screen == Screen::Main,
        (key.code == KeyCode::Enter && !a.config.online_mode) || ((key.code == KeyCode::Char(
            'o',
        ) || key.code == KeyCode::Char('O')) && key.modifiers == Modifiers::Plain),
    ensures
        ({
            let (b, quit, fx) = a.key_step(key, theme_count);
            &&& !quit
            &&& b.screen == Screen::Installing
            &&& fx.len() == 1
            &&& fx[0] is Launch
            &&& fx[0]->Launch_0.mods == a.config.mods
            &&& fx[0]->Launch_0.username == a.config.username
            &&& fx[0]->Launch_0.min_ram == a.config.min_ram
            &&& fx[0]->Launch_0.max_ram == a.config.max_ram
            &&& fx[0]->Launch_0.jvm_args == jvm_arg_list(a.config.jvm_args)
            &&& fx[0]->Launch_0.version == a.current_version()
            &&& fx[0]->Launch_0.loader == loader_names()[a.loader_idx as int]
            &&& !fx[0]->Launch_0.online
        }),
{
}

/// Fabric and Quilt take the same loader version from a listing of versions:
/// the first one listed (the newest), and none from an empty listing.
pub proof fn law_fabric_quilt_take_first_listed(
    loader: Loader,
    mc_version: Seq<char>,
    v: Vec<String>,
)
    requires
        loader == Loader::Fabric || loader == Loader::Quilt,
    ensures
        v@.len() > 0 ==> loader_version_choice(
            loader,
            mc_version,
            Some(LoaderListing::Versions(v)),
        ) == Some(v@[0]@),
        v@.len() == 0 ==> loader_version_choice(
            loader,
            mc_version,
            Some(LoaderListing::Versions(v)),
        ) is None,
        loader_version_choice(loader, mc_version, Some(LoaderListing::Versions(v)))
            == loader_version_choice(Loader::Fabric, mc_version, Some(LoaderListing::Versions(v))),
{
}

/// Microsoft's device code and sign-in address, once reported, are both
/// shown on the sign-in screen, with the sign-in prompt; nothing else changes
/// and no work is asked for.
pub proof fn law_device_code_is_shown(a: AppView, url: String, code: String)
    ensures
        ({
            let (b, fx) = a.auth_event_step(AuthEvent::DeviceCode { url: url, code: code });
            &&& b.auth_url == Some(url@)
            &&& b.auth_code == Some(code@)
            &&& b.auth_status == "Login with Microsoft"@
            &&& b == AppView {
                auth_url: Some(url@),
                auth_code: Some(code@),
                auth_status: "Login with Microsoft"@,
                ..a
            }
            &&& fx.len() == 0
        }),
{
}

/// A successful sign-in remembers the refresh token Microsoft gave (and
/// saves the settings), then launches the selected version online or offline
/// as the settings say, carrying the settings' player name and mods.
pub proof fn law_sign_in_success_launches(a: AppView, refresh_token: Option<String>)
    ensures
        ({
            let (b, fx) = a.auth_event_step(AuthEvent::Success { refresh_token: refresh_token });
            let launch = fx[fx.len() - 1];
            &&& b.screen == Screen::Installing
            &&& fx.len() == (if refresh_token is Some {
                2int
            } else {
                1int
            })
            &&& refresh_token is Some ==> fx[0] == EffectView::SaveConfig
                && b.config.msa_refresh_token == Some(refresh_token->0@)
            &&& refresh_token is None ==> b.config.msa_refresh_token == a.config.msa_refresh_token
            &&& launch is Launch
            &&& launch->Launch_0.mods == a.config.mods
            &&& launch->Launch_0.username == a.config.username
            &&& launch->Launch_0.version == a.current_version()
            &&& launch->Launch_0.loader == loader_names()[a.loader_idx as int]
            &&& launch->Launch_0.online == a.config.online_mode
        }),
{
}

} // verus!
