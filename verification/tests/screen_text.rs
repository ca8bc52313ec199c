use nepix::mc::VersionEntry;
use nepix::ui::{
    centered_rect, config_focus_marks, download_text, field_hint, loader_row, mode_label, mods_list_text, mods_summary,
    theme_index, username_label, version_row, versions_subtitle, Area, RowStyle,
};
use ratatui::layout::{Constraint, Direction, Layout, Rect};

#[test]
fn dialog_is_centred_like_ratatui() {
    let area = Area { x: 0, y: 0, width: 120, height: 40 };
    let got = centered_rect(75, 75, area);
    let rows = Layout::default()
        .direction(Direction::Vertical)
        .constraints([Constraint::Percentage(12), Constraint::Percentage(75), Constraint::Percentage(12)])
        .split(Rect::new(0, 0, 120, 40));
    let cols = Layout::default()
        .direction(Direction::Horizontal)
        .constraints([Constraint::Percentage(12), Constraint::Percentage(75), Constraint::Percentage(12)])
        .split(rows[1]);
    let want = cols[1];
    assert_eq!(got, Area { x: want.x, y: want.y, width: want.width, height: want.height });
    assert!(got.x > 0 && got.y > 0);
    assert!(got.width < 120 && got.height < 40);
}

#[test]
fn full_size_dialog_fills_area() {
    let area = Area { x: 2, y: 3, width: 50, height: 20 };
    assert_eq!(centered_rect(100, 100, area), area);
}

#[test]
fn version_rows() {
    let rel = VersionEntry { id: "1.21.4".into(), version_type: "release".into() };
    let snap = VersionEntry { id: "25w14a".into(), version_type: "snapshot".into() };
    let r = version_row(&rel, true);
    assert_eq!(r.text, "▸ 1.21.4");
    assert_eq!(r.style, RowStyle::Selected);
    let r = version_row(&rel, false);
    assert_eq!(r.text, "  1.21.4");
    assert_eq!(r.style, RowStyle::Normal);
    let r = version_row(&snap, false);
    assert_eq!(r.text, "  25w14a  snapshot");
    assert_eq!(r.style, RowStyle::Muted);
    let r = version_row(&snap, true);
    assert_eq!(r.text, "▸ 25w14a  snapshot");
    assert_eq!(r.style, RowStyle::Selected);
}

#[test]
fn list_subtitles() {
    assert_eq!(versions_subtitle(12, true), " 12 items ");
    assert_eq!(versions_subtitle(0, false), " 0 releases ");
}

#[test]
fn download_counter() {
    assert_eq!(download_text(0, 0), "");
    assert_eq!(download_text(3 * 1048576 + 5, 0), "  3 MB downloaded  ");
    assert_eq!(download_text(1048575, 10 * 1048576), "  0 / 10 MB  ");
}

#[test]
fn info_panel_labels() {
    assert_eq!(mods_summary(0), "None");
    assert_eq!(mods_summary(2), "2 loaded");
    assert_eq!(username_label(""), "Not set");
    assert_eq!(username_label("Steve"), "Steve");
    assert_eq!(mode_label(true), "Online (Microsoft)");
    assert_eq!(mode_label(false), "Offline");
    assert_eq!(loader_row("Fabric", true), "  ◉  Fabric");
    assert_eq!(loader_row("Quilt", false), "  ○  Quilt");
}

#[test]
fn configuration_texts() {
    assert_eq!(mods_list_text(&vec![]), "No mods configured");
    assert_eq!(mods_list_text(&vec!["sodium".to_string()]), "sodium");
    assert_eq!(
        mods_list_text(&vec!["sodium".to_string(), "lithium".to_string(), "iris".to_string()]),
        "sodium, lithium, iris"
    );
    assert_eq!(field_hint("", "e.g. 2G"), "  e.g. 2G");
    assert_eq!(field_hint("4G", "e.g. 2G"), "");
}

#[test]
fn theme_in_use() {
    assert_eq!(theme_index(7, 3), 1);
    assert_eq!(theme_index(0, 5), 0);
}

#[test]
fn focus_marks() {
    assert_eq!(config_focus_marks(0), vec![true, false, false, false, false, false, false]);
    assert_eq!(config_focus_marks(6), vec![false, false, false, false, false, false, true]);
    assert_eq!(config_focus_marks(9), vec![false; 7]);
}
