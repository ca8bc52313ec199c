//! What the screens show: the text of each row and label, and where the
//! configuration dialog sits. Drawing itself is left to the terminal front end.
use vstd::prelude::*;
use ratatui::layout::{Constraint, Direction, Layout, Rect};
use crate::mc::VersionEntry;
use crate::text::{concat_str, decimal, decimal_string, owned, push_text, string_of};

verus! {

/// The launcher's version, as shown in the header.
pub const VERSION: &'static str = "0.5";

/// Bytes in a megabyte, as the download counter counts them.
pub const MB: u64 = 1048576;

/// A rectangle of the terminal: column, row, width, height.
#[derive(PartialEq, Eq, Structural, Clone, Copy, Debug)]
pub struct Area {
    pub x: u16,
    pub y: u16,
    pub width: u16,
    pub height: u16,
}

impl View for Area {
    type V = (u16, u16, u16, u16);

    open spec fn view(&self) -> (u16, u16, u16, u16) {
        (self.x, self.y, self.width, self.height)
    }
}

/// Name for what ratatui's `Layout::split` returns when `area` is split
/// vertically (or horizontally) into three parts with the percentage
/// constraints `first`, `second` and `third`.
pub uninterp spec fn ratatui_split(
    vertical: bool,
    first: u16,
    second: u16,
    third: u16,
    area: (u16, u16, u16, u16),
) -> Seq<(u16, u16, u16, u16)>;

/// ratatui's `Layout::split` with three `Constraint::Percentage`s. The
/// contract claims that the result is the one rectangle per constraint that
/// the layout solver computes from these arguments alone; what that solver
/// computes is not stated.
#[verifier::external_body]
fn split_three(vertical: bool, first: u16, second: u16, third: u16, area: Area) -> (r: Vec<Area>)
    requires
        first + second + third <= 100,
    ensures
        r@.len() == 3,
        r@.map_values(|a: Area| a@) == ratatui_split(vertical, first, second, third, area@),
{
    let direction = if vertical { Direction::Vertical } else { Direction::Horizontal };
    let parts = Layout::default().direction(direction).constraints([
        Constraint::Percentage(first),
        Constraint::Percentage(second),
        Constraint::Percentage(third),
    ]).split(Rect::new(area.x, area.y, area.width, area.height));
    parts.iter().map(|p| Area { x: p.x, y: p.y, width: p.width, height: p.height }).collect()
}

/// Whether each of the seven elements of the configuration screen (the
/// four text fields, the mods field, the two buttons) is the focused one.
pub fn config_focus_marks(config_focus: usize) -> (r: Vec<bool>)
    ensures
        r@.len() == 7,
        forall|i: int| 0 <= i < 7 ==> #[trigger] r@[i] == (i == config_focus),
{
    let mut r: Vec<bool> = Vec::new();
    for i in 0..7usize
        invariant
            r@.len() == i,
            forall|k: int| 0 <= k < i ==> #[trigger] r@[k] == (k == config_focus),
    {
        r.push(i == config_focus);
    }
    r
}

/// The rectangle of a dialog that takes `percent_x` of the width and
/// `percent_y` of the height of `r`, centred in it.
pub open spec fn centered_spec(percent_x: u16, percent_y: u16, r: (u16, u16, u16, u16)) -> (
    u16,
    u16,
    u16,
    u16,
) {
    let pad_y = ((100 - percent_y) / 2) as u16;
    let pad_x = ((100 - percent_x) / 2) as u16;
    let row = ratatui_split(true, pad_y, percent_y, pad_y, r)[1];
    ratatui_split(false, pad_x, percent_x, pad_x, row)[1]
}

/// The rectangle of a dialog centred in `r`, taking `percent_x` percent of
/// its width and `percent_y` percent of its height.
pub fn centered_rect(percent_x: u16, percent_y: u16, r: Area) -> (c: Area)
    requires
        percent_x <= 100,
        percent_y <= 100,
    ensures
        c@ == centered_spec(percent_x, percent_y, r@),
{
    let pad_y = (100 - percent_y) / 2;
    let popup = split_three(true, pad_y, percent_y, pad_y, r);
    let row = popup[1];
    assert(popup@.map_values(|a: Area| a@)[1] == row@);
    let pad_x = (100 - percent_x) / 2;
    let cols = split_three(false, pad_x, percent_x, pad_x, row);
    let c = cols[1];
    assert(cols@.map_values(|a: Area| a@)[1] == c@);
    c
}

/// How a row of a list is drawn.
#[derive(PartialEq, Eq, Structural, Clone, Copy, Debug)]
pub enum RowStyle {
    Selected,
    Muted,
    Normal,
}

/// A row of the version list.
pub struct VersionRow {
    pub text: String,
    pub style: RowStyle,
}

/// The text of a row of the version list: a marker for the selected row,
/// the identifier, and a note for versions that are not releases.
pub open spec fn version_row_text(id: Seq<char>, version_type: Seq<char>, selected: bool) -> Seq<
    char,
> {
    let prefix = if selected {
        "▸"@
    } else {
        " "@
    };
    if version_type != "release"@ {
        prefix + " "@ + id + "  snapshot"@
    } else {
        prefix + " "@ + id
    }
}

/// The row of the version list for `v`.
pub fn version_row(v: &VersionEntry, selected: bool) -> (r: VersionRow)
    ensures
        r.text@ == version_row_text(v.id@, v.version_type@, selected),
        r.style == (if selected {
            RowStyle::Selected
        } else if v.version_type@ != "release"@ {
            RowStyle::Muted
        } else {
            RowStyle::Normal
        }),
{
    let is_snapshot = !crate::text::same_text(v.version_type.as_str(), "release");
    let prefix = if selected {
        "▸"
    } else {
        " "
    };
    let style = if selected {
        RowStyle::Selected
    } else if is_snapshot {
        RowStyle::Muted
    } else {
        RowStyle::Normal
    };
    let a = concat_str(prefix, " ");
    let b = concat_str(a.as_str(), v.id.as_str());
    let text = if is_snapshot {
        concat_str(b.as_str(), "  snapshot")
    } else {
        b
    };
    VersionRow { text, style }
}

/// The title next to "Versions": how many versions are listed.
pub fn versions_subtitle(count: usize, show_snapshots: bool) -> (r: String)
    ensures
        r@ == " "@ + decimal(count as nat) + (if show_snapshots {
            " items "@
        } else {
            " releases "@
        }),
{
    let n = decimal_string(count as u64);
    let a = concat_str(" ", n.as_str());
    if show_snapshots {
        concat_str(a.as_str(), " items ")
    } else {
        concat_str(a.as_str(), " releases ")
    }
}

/// The download counter of the installation screen, in whole megabytes.
pub open spec fn download_text_spec(current: u64, total: u64) -> Seq<char> {
    if total > 0 {
        "  "@ + decimal((current / MB) as nat) + " / "@ + decimal((total / MB) as nat) + " MB  "@
    } else if current > 0 {
        "  "@ + decimal((current / MB) as nat) + " MB downloaded  "@
    } else {
        Seq::empty()
    }
}

/// The download counter: downloaded and total megabytes when the total is
/// known, downloaded megabytes otherwise, nothing before the first byte.
pub fn download_text(current: u64, total: u64) -> (r: String)
    ensures
        r@ == download_text_spec(current, total),
{
    if total > 0 {
        let mut v: Vec<char> = Vec::new();
        push_text(&mut v, "  ");
        let mut c = crate::text::decimal_chars(current / MB);
        v.append(&mut c);
        push_text(&mut v, " / ");
        let mut t = crate::text::decimal_chars(total / MB);
        v.append(&mut t);
        push_text(&mut v, " MB  ");
        string_of(v.as_slice())
    } else if current > 0 {
        let mut v: Vec<char> = Vec::new();
        push_text(&mut v, "  ");
        let mut c = crate::text::decimal_chars(current / MB);
        v.append(&mut c);
        push_text(&mut v, " MB downloaded  ");
        string_of(v.as_slice())
    } else {
        String::new()
    }
}

/// The mods line of the main screen.
pub fn mods_summary(count: usize) -> (r: String)
    ensures
        r@ == (if count > 0 {
            decimal(count as nat) + " loaded"@
        } else {
            "None"@
        }),
{
    if count > 0 {
        let n = decimal_string(count as u64);
        concat_str(n.as_str(), " loaded")
    } else {
        owned("None")
    }
}

/// The player name shown on the main screen.
pub fn username_label(username: &str) -> (r: String)
    ensures
        r@ == (if username@.len() == 0 {
            "Not set"@
        } else {
            username@
        }),
{
    if username.unicode_len() == 0 {
        owned("Not set")
    } else {
        owned(username)
    }
}

/// The sign-in mode shown on the main screen.
pub fn mode_label(online: bool) -> (r: String)
    ensures
        r@ == (if online {
            "Online (Microsoft)"@
        } else {
            "Offline"@
        }),
{
    if online {
        owned("Online (Microsoft)")
    } else {
        owned("Offline")
    }
}

/// The strings of `items` joined by `sep`.
pub open spec fn joined(items: Seq<Seq<char>>, sep: Seq<char>) -> Seq<char>
    decreases items.len(),
{
    if items.len() == 0 {
        Seq::empty()
    } else if items.len() == 1 {
        items[0]
    } else {
        joined(items.drop_last(), sep) + sep + items.last()
    }
}

/// The list of configured mods on the configuration screen.
pub fn mods_list_text(mods: &Vec<String>) -> (r: String)
    ensures
        r@ == (if mods@.len() == 0 {
            "No mods configured"@
        } else {
            joined(crate::mc::string_views(mods@), ", "@)
        }),
{
    if mods.len() == 0 {
        return owned("No mods configured");
    }
    let ghost items = crate::mc::string_views(mods@);
    let mut v: Vec<char> = Vec::new();
    let n = mods.len();
    for i in 0..n
        invariant
            n == mods@.len(),
            n > 0,
            items == crate::mc::string_views(mods@),
            v@ == joined(items.take(i as int), ", "@),
    {
        let ghost before = v@;
        if i > 0 {
            push_text(&mut v, ", ");
        }
        push_text(&mut v, mods[i].as_str());
        assert(items.take(i + 1).drop_last() =~= items.take(i as int));
        assert(items.take(i + 1).last() == mods@[i as int]@);
        if i == 0 {
            assert(v@ =~= joined(items.take(1), ", "@));
        }
    }
    assert(items.take(n as int) =~= items);
    string_of(v.as_slice())
}

/// The hint shown after an empty field of the configuration screen.
pub fn field_hint(value: &str, hint: &str) -> (r: String)
    ensures
        r@ == (if value@.len() == 0 {
            "  "@ + hint@
        } else {
            Seq::empty()
        }),
{
    if value.unicode_len() == 0 {
        concat_str("  ", hint)
    } else {
        String::new()
    }
}

/// A row of the loader selector.
pub fn loader_row(name: &str, selected: bool) -> (r: String)
    ensures
        r@ == "  "@ + (if selected {
            "◉"@
        } else {
            "○"@
        }) + "  "@ + name@,
{
    let icon = if selected {
        "◉"
    } else {
        "○"
    };
    let a = concat_str("  ", icon);
    let b = concat_str(a.as_str(), "  ");
    concat_str(b.as_str(), name)
}

/// The theme in use among `count` themes.
pub fn theme_index(theme_idx: usize, count: usize) -> (r: usize)
    requires
        count > 0,
    ensures
        r == theme_idx % count,
        r < count,
{
    theme_idx % count
}

} // verus!
