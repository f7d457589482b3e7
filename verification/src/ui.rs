//! What a frame of the terminal user interface shows: the log of a removal,
//! or the header, the list of packages and the footer, with their heights.
use vstd::prelude::*;
use vstd::utf8::encode_utf8;
use crate::app::{
    holds, indices_view, lemma_shown_indices_in_range, shown_indices, App, AppView, InputMode,
};
use crate::managers::{name_spec, ManagerKind, PackageView};
use crate::text::{
    ascii_upper, chars_of, decimal_spec, join, join_spec, push_char, push_decimal,
    spec_ascii_upper,
};

verus! {

/// A row of the package list.
pub struct Item {
    pub text: String,
    /// Whether the package is marked for removal; such rows stand out.
    pub marked: bool,
}

pub struct ItemView {
    pub text: Seq<char>,
    pub marked: bool,
}

impl View for Item {
    type V = ItemView;

    open spec fn view(&self) -> ItemView {
        ItemView { text: self.text@, marked: self.marked }
    }
}

/// What a frame shows.
pub enum Screen {
    /// The log of a removal, over the whole frame, scrolled down so that its
    /// last lines show.
    Log { title: String, text: String, scroll: u16 },
    /// The header, the rows of the package list and the footer.
    Browse {
        header: String,
        header_height: u16,
        items: Vec<Item>,
        footer_title: String,
        footer_text: String,
        footer_height: u16,
    },
}

pub enum ScreenView {
    Log { title: Seq<char>, text: Seq<char>, scroll: u16 },
    Browse {
        header: Seq<char>,
        header_height: u16,
        items: Seq<ItemView>,
        footer_title: Seq<char>,
        footer_text: Seq<char>,
        footer_height: u16,
    },
}

pub open spec fn items_view(v: Seq<Item>) -> Seq<ItemView> {
    v.map_values(|i: Item| i@)
}

impl View for Screen {
    type V = ScreenView;

    open spec fn view(&self) -> ScreenView {
        match self {
            Screen::Log { title, text, scroll } => ScreenView::Log {
                title: title@,
                text: text@,
                scroll: *scroll,
            },
            Screen::Browse {
                header,
                header_height,
                items,
                footer_title,
                footer_text,
                footer_height,
            } => ScreenView::Browse {
                header: header@,
                header_height: *header_height,
                items: items_view(items@),
                footer_title: footer_title@,
                footer_text: footer_text@,
                footer_height: *footer_height,
            },
        }
    }
}

pub open spec fn screen_option_view(o: Option<Screen>) -> Option<ScreenView> {
    match o {
        Some(s) => Some(s@),
        None => None,
    }
}

/// `x - y`, or 0 where that is negative.
pub open spec fn sat_sub(x: u16, y: u16) -> u16 {
    if x >= y {
        (x - y) as u16
    } else {
        0
    }
}

/// The title of the log: how many packages are being, or were, removed.
pub open spec fn log_title_spec(mode: InputMode, count: nat) -> Seq<char> {
    if mode == InputMode::Executing {
        " "@ + decimal_spec(count) + " packages uninstalling... "@
    } else {
        " "@ + decimal_spec(count) + " packages uninstalled! (Press ENTER to return) "@
    }
}

/// How far the log is scrolled: by as many lines as do not fit between the
/// borders of a frame of the given height.
pub open spec fn log_scroll_spec(lines: u16, height: u16) -> u16 {
    let room = sat_sub(height, 2);
    if lines > room {
        (lines - room) as u16
    } else {
        0
    }
}

/// The log screen; the line count is taken modulo 2^16.
pub open spec fn log_screen_spec(s: AppView, height: u16) -> ScreenView {
    ScreenView::Log {
        title: log_title_spec(s.input_mode, s.marked.len()),
        text: join_spec(s.logs, "\n"@),
        scroll: log_scroll_spec(s.logs.len() as u16, height),
    }
}

/// The key that selects the system's manager: the first letter of its
/// name, in uppercase, or a space for an empty name.
pub open spec fn system_key_spec(system: Seq<char>) -> char {
    spec_ascii_upper(
        if system.len() > 0 {
            system[0]
        } else {
            ' '
        },
    )
}

/// The header: the current manager and the keys.
pub open spec fn header_spec(manager: ManagerKind, system: Seq<char>) -> Seq<char> {
    " Mode: "@ + name_spec(manager) + " | "@ + system + " ["@ + seq![system_key_spec(system)]
        + "] | Flatpak [F] | Search [S] | Select [Space] | Uninstall [Enter] | Quit [Q] "@
}

/// The title and the text of the footer, given how many packages show.
pub open spec fn footer_spec(s: AppView, shown: nat) -> (Seq<char>, Seq<char>) {
    match s.input_mode {
        InputMode::Normal => (
            " Status "@,
            if s.search_query.len() > 0 {
                " Filter active: '"@ + s.search_query + "' (Press 'C' to clear) "@
            } else {
                " "@ + decimal_spec(shown) + " packages found. "@
            },
        ),
        InputMode::Search => (" Search (Press Enter/Esc to stop) "@, " "@ + s.search_query + "_"@),
        _ => (" Status "@, " ... "@),
    }
}

/// The height of a bordered box that wraps a text of `byte_len` bytes (taken
/// modulo 2^16) into a frame of the given width, at least 3; `None` where
/// that 16-bit arithmetic overflows.
pub open spec fn text_height_spec(byte_len: usize, width: u16) -> Option<u16> {
    let room = sat_sub(width, 4);
    if room == 0 {
        Some(3u16)
    } else {
        let len = byte_len as u16;
        if len + room > u16::MAX {
            None
        } else {
            let lines = (len + room - 1) / (room as int);
            if lines + 2 > u16::MAX {
                None
            } else if lines + 2 >= 3 {
                Some((lines + 2) as u16)
            } else {
                Some(3u16)
            }
        }
    }
}

/// The selection after the list shows `shown` rows: kept where it falls in
/// the list, moved to the last row where it falls below it, and dropped
/// for an empty list.
pub open spec fn clamped(selected: Option<usize>, shown: nat) -> Option<usize> {
    match selected {
        Some(i) => if shown == 0 {
            None
        } else if i >= shown {
            Some((shown - 1) as usize)
        } else {
            Some(i)
        },
        None => None,
    }
}

/// The row of a package: a mark, its name and its version.
pub open spec fn item_spec(p: PackageView, marked: Seq<Seq<char>>) -> ItemView {
    let m = marked.contains(p.id);
    ItemView {
        text: (if m {
            "[X]"@
        } else {
            "[ ]"@
        }) + " "@ + p.name + " (Version: "@ + p.version + ")"@,
        marked: m,
    }
}

/// The rows of the packages with the given indices.
pub open spec fn items_spec(s: AppView, ix: Seq<int>) -> Seq<ItemView> {
    ix.map_values(|k: int| item_spec(s.packages[k], s.marked))
}

/// What a frame of the given size shows, and the state after it: the log
/// while a removal runs or has ended; otherwise the browsing screen, with
/// the selection kept within the rows shown. `None`, with the state
/// unchanged, where the height of the header or the footer overflows.
pub open spec fn ui_spec(s: AppView, width: u16, height: u16, system: Seq<char>) -> (
    AppView,
    Option<ScreenView>,
) {
    if s.input_mode == InputMode::Executing || s.input_mode == InputMode::Done {
        (s, Some(log_screen_spec(s, height)))
    } else {
        let ix = shown_indices(s.packages, s.search_query);
        let header = header_spec(s.manager, system);
        let footer = footer_spec(s, ix.len());
        let hh = text_height_spec(encode_utf8(header).len() as usize, width);
        let fh = text_height_spec(encode_utf8(footer.1).len() as usize, width);
        if hh is Some && fh is Some {
            (
                AppView { selected: clamped(s.selected, ix.len()), ..s },
                Some(
                    ScreenView::Browse {
                        header,
                        header_height: hh->0,
                        items: items_spec(s, ix),
                        footer_title: footer.0,
                        footer_text: footer.1,
                        footer_height: fh->0,
                    },
                ),
            )
        } else {
            (s, None)
        }
    }
}

/// After a browsing frame, a selected row is one of the rows shown, there
/// is one row for each package that shows under the search text, and the
/// header and the footer are at least three rows high.
pub proof fn law_browse_frame_is_consistent(s: AppView, width: u16, height: u16, system: Seq<char>)
    ensures
        ui_spec(s, width, height, system).1 matches Some(
            ScreenView::Browse { items, header_height, footer_height, .. },
        ) ==> {
            &&& items.len() == shown_indices(s.packages, s.search_query).len()
            &&& (ui_spec(s, width, height, system).0.selected matches Some(i) ==> i < items.len())
            &&& header_height >= 3
            &&& footer_height >= 3
        },
{
}

/// A frame keeps a selected row that is shown, moves a selection below the
/// rows shown to the last of them, and drops the selection only when no row
/// shows.
pub proof fn law_frame_clamps_selection(s: AppView, width: u16, height: u16, system: Seq<char>)
    requires
        s.input_mode == InputMode::Normal || s.input_mode == InputMode::Search,
    ensures
        ({
            let (t, screen) = ui_spec(s, width, height, system);
            let n = shown_indices(s.packages, s.search_query).len();
            screen is Some ==> {
                &&& match s.selected {
                    Some(i) => if i < n {
                        t.selected == Some(i)
                    } else if n > 0 {
                        t.selected == Some((n - 1) as usize)
                    } else {
                        t.selected is None
                    },
                    None => t.selected is None,
                }
                &&& (t.selected is None ==> s.selected is None || n == 0)
                &&& t.packages == s.packages && t.marked == s.marked && t.search_query
                    == s.search_query && t.input_mode == s.input_mode
            }
        }),
{
}

/// The log scrolls by as little as lets its last lines show: not at all
/// when it fits between the borders, else so that exactly the room left
/// shows.
pub proof fn law_log_scroll_shows_the_end(lines: u16, height: u16)
    ensures
        lines <= sat_sub(height, 2) ==> log_scroll_spec(lines, height) == 0,
        lines > sat_sub(height, 2) ==> lines - log_scroll_spec(lines, height) == sat_sub(height, 2),
{
}

/// A box is at least three rows high, and where it wraps its text (a width
/// over 4), its rows between the borders are the fewest that hold the text:
/// the text fits in them and not in one row fewer.
pub proof fn law_text_height_fits(byte_len: usize, width: u16)
    ensures
        text_height_spec(byte_len, width) matches Some(h) ==> h >= 3,
        width > 4 && byte_len as u16 > 0 ==> (text_height_spec(byte_len, width) matches Some(h)
            ==> {
            let room = (width - 4) as int;
            let len = (byte_len as u16) as int;
            &&& (h - 2) * room >= len
            &&& (h - 3) * room < len
        }),
{
    if width > 4 && byte_len as u16 > 0 {
        if let Some(h) = text_height_spec(byte_len, width) {
            let room = (width - 4) as int;
            let len = (byte_len as u16) as int;
            let lines = (len + room - 1) / room;
            assert(room == sat_sub(width, 4));
            assert(lines * room <= len + room - 1 < lines * room + room) by (nonlinear_arith)
                requires
                    room > 0,
                    lines == (len + room - 1) / room,
                    len >= 0,
            ;
            assert(lines >= 1) by (nonlinear_arith)
                requires
                    room > 0,
                    len >= 1,
                    lines * room + room > len + room - 1,
            ;
            assert(h == lines + 2);
            assert((h - 2) * room >= len);
            assert((h - 3) * room < len) by (nonlinear_arith)
                requires
                    h - 3 == lines - 1,
                    lines * room <= len + room - 1,
            ;
        }
    }
}

/// A row shows as marked, with "[X]" in front, exactly when the package's id
/// (what Space marks and the removal command is given) is among the marked
/// ids, and with "[ ]" otherwise; then come the name and the version.
pub proof fn law_row_marked_by_id(p: PackageView, marked: Seq<Seq<char>>)
    ensures
        item_spec(p, marked).marked == marked.contains(p.id),
        item_spec(p, marked).text.take(3) == (if marked.contains(p.id) {
            seq!['[', 'X', ']']
        } else {
            seq!['[', ' ', ']']
        }),
        item_spec(p, marked).text.skip(3) == " "@ + p.name + " (Version: "@ + p.version + ")"@,
{
    reveal_strlit("[X]");
    reveal_strlit("[ ]");
    let t = item_spec(p, marked).text;
    let pre = if marked.contains(p.id) {
        "[X]"@
    } else {
        "[ ]"@
    };
    let rest = " "@ + p.name + " (Version: "@ + p.version + ")"@;
    assert(t =~= pre + rest);
    assert(t.take(3) =~= pre);
    assert(t.skip(3) =~= rest);
}

/// In a browsing frame, the rows are the shown packages in order, and row
/// `k` is marked exactly when its package's id is marked.
pub proof fn law_browse_rows_follow_marks(s: AppView, width: u16, height: u16, system: Seq<char>)
    ensures
        ui_spec(s, width, height, system).1 matches Some(ScreenView::Browse { items, .. }) ==> (
        forall|k: int|
            0 <= k < items.len() ==> {
                let pkg = s.packages[shown_indices(s.packages, s.search_query)[k]];
                &&& (#[trigger] items[k]).marked == s.marked.contains(pkg.id)
                &&& items[k] == item_spec(pkg, s.marked)
            }),
{
}

/// While a removal runs or after it, a frame shows its log and changes
/// nothing.
pub proof fn law_removal_shows_log(s: AppView, width: u16, height: u16, system: Seq<char>)
    requires
        s.input_mode == InputMode::Executing || s.input_mode == InputMode::Done,
    ensures
        ui_spec(s, width, height, system).0 == s,
        ui_spec(s, width, height, system).1 matches Some(ScreenView::Log { text, .. }) && text
            == join_spec(s.logs, "\n"@),
{
}

/// The title of the log.
pub fn log_title(mode: InputMode, count: usize) -> (r: String)
    ensures
        r@ == log_title_spec(mode, count as nat),
{
    let mut t = String::from_str(" ");
    push_decimal(&mut t, count);
    if mode == InputMode::Executing {
        t.append(" packages uninstalling... ");
    } else {
        t.append(" packages uninstalled! (Press ENTER to return) ");
    }
    t
}

/// How far the log is scrolled.
pub fn log_scroll(lines: u16, height: u16) -> (r: u16)
    ensures
        r == log_scroll_spec(lines, height),
{
    let room = height.saturating_sub(2);
    if lines > room {
        lines - room
    } else {
        0
    }
}

/// The header text.
pub fn header_text(manager: ManagerKind, system: &str) -> (r: String)
    ensures
        r@ == header_spec(manager, system@),
{
    let sc = chars_of(system);
    let first = if sc.len() > 0 {
        sc[0]
    } else {
        ' '
    };
    let mut h = String::from_str(" Mode: ");
    h.append(manager.display_name());
    h.append(" | ");
    h.append(system);
    h.append(" [");
    push_char(&mut h, ascii_upper(first));
    h.append("] | Flatpak [F] | Search [S] | Select [Space] | Uninstall [Enter] | Quit [Q] ");
    assert(h@ =~= header_spec(manager, system@));
    h
}

/// The title and the text of the footer, given how many packages show.
pub fn footer(app: &App, shown: usize) -> (r: (String, String))
    ensures
        r.0@ == footer_spec(app@, shown as nat).0,
        r.1@ == footer_spec(app@, shown as nat).1,
{
    match app.input_mode {
        InputMode::Normal => {
            let mut t: String;
            if !app.search_query.as_str().is_empty() {
                t = String::from_str(" Filter active: '");
                t.append(app.search_query.as_str());
                t.append("' (Press 'C' to clear) ");
            } else {
                t = String::from_str(" ");
                push_decimal(&mut t, shown);
                t.append(" packages found. ");
            }
            (String::from_str(" Status "), t)
        },
        InputMode::Search => {
            let mut t = String::from_str(" ");
            t.append(app.search_query.as_str());
            t.append("_");
            (String::from_str(" Search (Press Enter/Esc to stop) "), t)
        },
        _ => (String::from_str(" Status "), String::from_str(" ... ")),
    }
}

/// The height of a bordered box that wraps a text of `byte_len` bytes into
/// a frame of the given width.
pub fn text_height(byte_len: usize, width: u16) -> (r: Option<u16>)
    ensures
        r == text_height_spec(byte_len, width),
{
    let room = width.saturating_sub(4);
    if room == 0 {
        return Some(3);
    }
    let len = byte_len as u16;
    if len > u16::MAX - room {
        return None;
    }
    let lines = (len + room - 1) / room;
    if lines > u16::MAX - 2 {
        return None;
    }
    let h = lines + 2;
    if h >= 3 {
        Some(h)
    } else {
        Some(3)
    }
}

/// The row of a package.
pub fn item(app: &App, k: usize) -> (r: Item)
    requires
        k < app.packages@.len(),
    ensures
        r@ == item_spec(app@.packages[k as int], app@.marked),
{
    let p = &app.packages[k];
    let m = holds(&app.selected_for_removal, &p.id);
    let mut t = if m {
        String::from_str("[X]")
    } else {
        String::from_str("[ ]")
    };
    t.append(" ");
    t.append(p.name.as_str());
    t.append(" (Version: ");
    t.append(p.version.as_str());
    t.append(")");
    Item { text: t, marked: m }
}

/// What a frame of the given size shows, given the name of the system's
/// package manager; keeps the selection within the rows shown.
pub fn ui(app: &mut App, width: u16, height: u16, system: &str) -> (r: Option<Screen>)
    ensures
        final(app)@ == ui_spec(old(app)@, width, height, system@).0,
        screen_option_view(r) == ui_spec(old(app)@, width, height, system@).1,
{
    if app.input_mode == InputMode::Executing || app.input_mode == InputMode::Done {
        let title = log_title(app.input_mode, app.selected_for_removal.len());
        let text = join(&app.logs, "\n");
        let scroll = log_scroll(app.logs.len() as u16, height);
        return Some(Screen::Log { title, text, scroll });
    }
    let shown = app.filtered_packages();
    proof {
        lemma_shown_indices_in_range(app@.packages, app@.search_query);
    }
    let header = header_text(app.manager, system);
    let (footer_title, footer_text) = footer(app, shown.len());
    let hh = text_height(header.as_str().len(), width);
    let fh = text_height(footer_text.as_str().len(), width);
    let (header_height, footer_height) = match (hh, fh) {
        (Some(a), Some(b)) => (a, b),
        _ => {
            return None;
        },
    };
    match app.state.selected() {
        Some(i) => {
            if i >= shown.len() && shown.len() > 0 {
                app.state.select(Some(shown.len() - 1));
            } else if shown.len() == 0 {
                app.state.select(None);
            }
        },
        None => {},
    }
    let ghost ix = shown_indices(old(app)@.packages, old(app)@.search_query);
    let ghost mid = app@;
    let mut items: Vec<Item> = Vec::new();
    let mut j: usize = 0;
    while j < shown.len()
        invariant
            j <= shown@.len(),
            indices_view(shown@) == ix,
            forall|k: int| 0 <= k < ix.len() ==> 0 <= #[trigger] ix[k] < app@.packages.len(),
            app@ == mid,
            mid.packages == old(app)@.packages,
            mid.marked == old(app)@.marked,
            items_view(items@) == items_spec(old(app)@, ix.take(j as int)),
        decreases shown@.len() - j,
    {
        assert(shown@[j as int] as int == ix[j as int]);
        let row = item(app, shown[j]);
        let ghost before = items_view(items@);
        items.push(row);
        assert(items_view(items@) =~= before.push(row@));
        assert(items_spec(old(app)@, ix.take(j + 1)) =~= items_spec(old(app)@, ix.take(j as int)).push(
            item_spec(old(app)@.packages[ix[j as int]], old(app)@.marked),
        ));
        j = j + 1;
    }
    assert(ix.take(j as int) =~= ix);
    Some(
        Screen::Browse {
            header,
            header_height,
            items,
            footer_title,
            footer_text,
            footer_height,
        },
    )
}

} // verus!
