//! What the screens show: labels, cut texts, relative times and the
//! geometry of the lists, computed from the state; the drawing itself is
//! the terminal's business.
use vstd::prelude::*;
use crate::app::{App, InputMode, Screen, SortBy, current_session_of};
use crate::model::{Folder, Session, opt_view};
use crate::number::{dec_string, fmt_decimal};
use crate::text::{chars_of, concat, push_char, string_of, str_eq};
use crate::records::{byte_prefix, byte_prefix_of};

verus! {

/// `text` cut to at most `max_len` characters, the last of them `…` when
/// something was cut.
pub open spec fn truncated_chars(text: Seq<char>, max_len: nat) -> Seq<char> {
    if text.len() <= max_len {
        text
    } else {
        text.take(if max_len > 0 {
            max_len - 1
        } else {
            0
        }).push('…')
    }
}

/// A cut text fits: it has at most `max_len` characters (for a limit of at
/// least one), is the text itself when that fits, and otherwise begins
/// with the text's first `max_len - 1` characters and ends in `…`.
pub proof fn law_truncated_fits(text: Seq<char>, max_len: nat)
    ensures
        max_len >= 1 ==> truncated_chars(text, max_len).len() <= max_len,
        text.len() <= max_len ==> truncated_chars(text, max_len) == text,
        text.len() > max_len >= 1 ==> {
            &&& truncated_chars(text, max_len).drop_last() == text.take(max_len - 1)
            &&& truncated_chars(text, max_len).last() == '…'
        },
{
    if text.len() > max_len >= 1 {
        assert(truncated_chars(text, max_len).drop_last() =~= text.take(max_len - 1));
    }
}

/// Cuts `text` to at most `max_len` characters, ending in `…` when cut.
pub fn truncate(text: &str, max_len: usize) -> (r: String)
    ensures
        r@ == truncated_chars(text@, max_len as nat),
{
    let mut cs = chars_of(text);
    if cs.len() <= max_len {
        return text.to_owned();
    }
    let keep = if max_len > 0 {
        max_len - 1
    } else {
        0
    };
    cs.truncate(keep);
    cs.push('…');
    assert(cs@ =~= text@.take(keep as int).push('…'));
    string_of(&cs)
}

/// The badge naming the sort order above the session list.
pub open spec fn sort_badge_text(sort: SortBy) -> Seq<char> {
    match sort {
        SortBy::Updated => "↻ updated"@,
        SortBy::Created => "+ created"@,
        SortBy::Title => "≡ title"@,
    }
}

/// The badge naming the sort order.
pub fn sort_badge(sort: SortBy) -> (r: String)
    ensures
        r@ == sort_badge_text(sort),
{
    match sort {
        SortBy::Updated => "↻ updated".to_owned(),
        SortBy::Created => "+ created".to_owned(),
        SortBy::Title => "≡ title".to_owned(),
    }
}

/// The lines a session takes in the list: title and details, and its
/// message preview if it has one.
pub fn item_line_count(session: &Session) -> (r: usize)
    ensures
        r == if session.first_message_preview is Some {
            3usize
        } else {
            2usize
        },
{
    if session.first_message_preview.is_some() {
        3
    } else {
        2
    }
}

/// The lines each session takes in the list, going by the first one listed
/// (2 for an empty list).
pub open spec fn item_lines_of(app: App) -> nat {
    if app.filtered_indices@.len() > 0 && app.filtered_indices@[0] < app.sessions@.len() {
        if app.sessions@[app.filtered_indices@[0] as int].first_message_preview is Some {
            3
        } else {
            2
        }
    } else {
        2
    }
}

/// How many sessions the list draws: as many whole items of `item_height`
/// rows as fit in `height` rows, from position `scroll` to the end of the
/// list.
pub open spec fn items_drawn(height: nat, item_height: nat, scroll: nat, total: nat) -> nat {
    let fit = height / item_height;
    let left: nat = if scroll < total {
        (total - scroll) as nat
    } else {
        0
    };
    if fit < left {
        fit
    } else {
        left
    }
}

/// The number of sessions drawn in a list area `height` rows high.
pub fn items_rendered(height: u16, item_height: usize, scroll: usize, total: usize) -> (r: usize)
    requires
        item_height > 0,
    ensures
        r == items_drawn(height as nat, item_height as nat, scroll as nat, total as nat),
{
    let fit = height as usize / item_height;
    let left: usize = if scroll < total {
        total - scroll
    } else {
        0
    };
    if fit < left {
        fit
    } else {
        left
    }
}

/// The list shows a scrollbar when it has more sessions than whole items
/// fit in its `visible_rows` rows.
pub fn shows_scrollbar(total: usize, visible_rows: usize, item_height: usize) -> (r: bool)
    requires
        item_height > 0,
    ensures
        r == (total > visible_rows / item_height),
{
    total > visible_rows / item_height
}

/// The lines each session takes in the list.
pub fn item_lines(app: &App) -> (r: usize)
    ensures
        r == item_lines_of(*app),
{
    if app.filtered_indices.len() > 0 {
        let idx = app.filtered_indices[0];
        if idx < app.sessions.len() {
            return item_line_count(&app.sessions[idx]);
        }
    }
    2
}

/// The last position the list may scroll to when `rows` rows are visible:
/// as many sessions as fit stay on screen.
pub open spec fn list_max_scroll(app: App, rows: nat) -> int {
    let per = rows / (item_lines_of(app) + 1);
    if app.filtered_indices@.len() > per {
        app.filtered_indices@.len() - per
    } else {
        0
    }
}

/// Keep the cursor where the list can scroll to, given `rows` visible rows.
pub fn clamp_to_viewport(app: &mut App, rows: usize)
    ensures
        *final(app) == (App {
            selected_session: if old(app).selected_session > list_max_scroll(*old(app), rows as nat) {
                list_max_scroll(*old(app), rows as nat) as usize
            } else {
                old(app).selected_session
            },
            ..*old(app)
        }),
{
    let height = item_lines(app) + 1;
    let per = rows / height;
    let total = app.filtered_indices.len();
    let max_scroll = if total > per {
        total - per
    } else {
        0
    };
    if app.selected_session > max_scroll {
        app.selected_session = max_scroll;
    }
}

/// The rows of the scroll bar's thumb, `start` up to but not including
/// `end`, for a list of `total` entries shown from `scroll` on, `shown` at a
/// time, on a track of `track` rows.
pub open spec fn thumb(scroll: nat, shown: nat, track: nat, total: nat) -> (int, int) {
    if total > 0 {
        (
            (scroll * track / total) as int,
            (((scroll + shown) * track + total - 1) as nat / total) as int,
        )
    } else {
        (0, 0)
    }
}

/// The scroll bar's thumb.
pub fn scrollbar_thumb(scroll: usize, shown: usize, track: u16, total: usize) -> (r: (u128, u128))
    ensures
        r.0 as int == thumb(scroll as nat, shown as nat, track as nat, total as nat).0,
        r.1 as int == thumb(scroll as nat, shown as nat, track as nat, total as nat).1,
{
    if total == 0 {
        return (0, 0);
    }
    let s = scroll as u128;
    let n = shown as u128;
    let t = track as u128;
    let m = total as u128;
    assert(s * t <= 0xffff_ffff_ffff_ffff * 0xffff) by (nonlinear_arith)
        requires
            s <= 0xffff_ffff_ffff_ffff,
            t <= 0xffff,
    ;
    assert((s + n) * t <= 0x1_ffff_ffff_ffff_fffe * 0xffff) by (nonlinear_arith)
        requires
            s + n <= 0x1_ffff_ffff_ffff_fffe,
            t <= 0xffff,
    ;
    let start = s * t / m;
    let end = ((s + n) * t + m - 1) / m;
    (start, end)
}

/// The mode badge is shown except on the main screen in normal mode.
pub open spec fn shows_mode_badge(app: App) -> bool {
    !(app.screen == Screen::Main && app.input_mode == InputMode::Normal)
}

/// Whether the status bar shows the mode badge.
pub fn should_show_mode_badge(app: &App) -> (r: bool)
    ensures
        r == shows_mode_badge(*app),
{
    !(matches!(app.screen, Screen::Main) && matches!(app.input_mode, InputMode::Normal))
}

/// Which sessions the status bar says are shown: all projects or the
/// current one.
pub fn context_label(app: &App) -> (r: String)
    ensures
        r@ == if app.global_mode {
            "global"@
        } else {
            "cwd"@
        },
{
    if app.global_mode {
        "global".to_owned()
    } else {
        "cwd".to_owned()
    }
}

/// The name of the mode the selector is in.
pub open spec fn mode_name(app: App) -> Seq<char> {
    match app.screen {
        Screen::Main => match app.input_mode {
            InputMode::Normal => "NORMAL"@,
            InputMode::Search => "SEARCH"@,
            InputMode::Rename => "RENAME"@,
            InputMode::NewFolder => "NEW FOLDER"@,
            InputMode::Confirm => "CONFIRM"@,
            InputMode::Command => "COMMAND"@,
        },
        Screen::Preview => "PREVIEW"@,
        Screen::Help => "HELP"@,
        Screen::ConfirmDelete => "DELETE"@,
        Screen::Rename => "RENAME"@,
        Screen::MoveToFolder => "MOVE"@,
        Screen::NewFolder => "NEW FOLDER"@,
    }
}

/// The name of the mode the selector is in.
pub fn mode_label(app: &App) -> (r: String)
    ensures
        r@ == mode_name(*app),
{
    let s = match app.screen {
        Screen::Main => match app.input_mode {
            InputMode::Normal => "NORMAL",
            InputMode::Search => "SEARCH",
            InputMode::Rename => "RENAME",
            InputMode::NewFolder => "NEW FOLDER",
            InputMode::Confirm => "CONFIRM",
            InputMode::Command => "COMMAND",
        },
        Screen::Preview => "PREVIEW",
        Screen::Help => "HELP",
        Screen::ConfirmDelete => "DELETE",
        Screen::Rename => "RENAME",
        Screen::MoveToFolder => "MOVE",
        Screen::NewFolder => "NEW FOLDER",
    };
    s.to_owned()
}

/// The width of the mode badge: the name and a space on each side, at
/// least 8.
pub fn mode_width(app: &App) -> (r: u16)
    ensures
        r == if mode_name(*app).len() + 2 > 8 {
            mode_name(*app).len() + 2
        } else {
            8
        },
{
    let label = mode_label(app);
    let n = chars_of(label.as_str()).len();
    proof {
        reveal_strlit("NORMAL");
        reveal_strlit("SEARCH");
        reveal_strlit("RENAME");
        reveal_strlit("NEW FOLDER");
        reveal_strlit("CONFIRM");
        reveal_strlit("COMMAND");
        reveal_strlit("PREVIEW");
        reveal_strlit("HELP");
        reveal_strlit("DELETE");
        reveal_strlit("MOVE");
    }
    if n + 2 > 8 {
        (n + 2) as u16
    } else {
        8
    }
}

/// The key hints on the right of the status bar, each a text and whether
/// it names a key.
pub open spec fn shortcut_spans(app: App) -> Seq<(Seq<char>, bool)> {
    match app.input_mode {
        InputMode::Search => seq![("Enter"@, true), (" search "@, false), ("Esc"@, true), (" clear"@, false)],
        _ => match app.screen {
            Screen::Main => seq![("?"@, true), (" help "@, false), ("q"@, true), (" quit"@, false)],
            _ => seq![("Esc"@, true), (" back"@, false)],
        },
    }
}

/// The characters of each key hint.
pub open spec fn span_views(v: Seq<(&'static str, bool)>) -> Seq<(Seq<char>, bool)> {
    v.map_values(|s: (&'static str, bool)| (s.0@, s.1))
}

/// The key hints of the status bar.
pub fn shortcuts(app: &App) -> (r: Vec<(&'static str, bool)>)
    ensures
        span_views(r@) == shortcut_spans(*app),
{
    let mut v: Vec<(&'static str, bool)> = Vec::new();
    match app.input_mode {
        InputMode::Search => {
            v.push(("Enter", true));
            v.push((" search ", false));
            v.push(("Esc", true));
            v.push((" clear", false));
        },
        _ => match app.screen {
            Screen::Main => {
                v.push(("?", true));
                v.push((" help ", false));
                v.push(("q", true));
                v.push((" quit", false));
            },
            _ => {
                v.push(("Esc", true));
                v.push((" back", false));
            },
        },
    }
    assert(span_views(v@) =~= shortcut_spans(*app));
    v
}

/// The total length of the key hints' texts.
pub open spec fn spans_len(v: Seq<(Seq<char>, bool)>) -> int
    decreases v.len(),
{
    if v.len() == 0 {
        0
    } else {
        spans_len(v.drop_last()) + v.last().0.len()
    }
}

/// The width of the key hints: their length, at least 14.
pub fn shortcut_width(app: &App) -> (r: u16)
    ensures
        r == if spans_len(shortcut_spans(*app)) > 14 {
            spans_len(shortcut_spans(*app))
        } else {
            14
        },
{
    proof {
        reveal_strlit("Enter");
        reveal_strlit(" search ");
        reveal_strlit("Esc");
        reveal_strlit(" clear");
        reveal_strlit("?");
        reveal_strlit(" help ");
        reveal_strlit("q");
        reveal_strlit(" quit");
        reveal_strlit(" back");
    }
    let w: u16 = match app.input_mode {
        InputMode::Search => 22,
        _ => match app.screen {
            Screen::Main => 13,
            _ => 8,
        },
    };
    proof {
        let sp = shortcut_spans(*app);
        reveal_with_fuel(spans_len, 5);
        assert(spans_len(sp) == w as int);
    }
    if w > 14 {
        w
    } else {
        14
    }
}

/// The label of a folder in the folder panel: an icon, the name and the
/// number of sessions in it.
pub open spec fn folder_label_text(id: Seq<char>, name: Seq<char>, count: nat) -> Seq<char> {
    (if id == "inbox"@ {
        "📥 "@
    } else if id == "archive"@ {
        "🗃  "@
    } else {
        "📁 "@
    }) + name + " ("@ + dec_string(count) + ")"@
}

/// The label of a folder holding `count` sessions.
pub fn folder_label(folder: &Folder, count: usize) -> (r: String)
    ensures
        r@ == folder_label_text(folder.id@, folder.name@, count as nat),
{
    let icon = if str_eq(folder.id.as_str(), "inbox") {
        "📥 "
    } else if str_eq(folder.id.as_str(), "archive") {
        "🗃  "
    } else {
        "📁 "
    };
    let a = concat(icon, folder.name.as_str());
    let b = concat(a.as_str(), " (");
    let n = fmt_decimal(count as u128);
    let c = concat(b.as_str(), n.as_str());
    concat(c.as_str(), ")")
}

/// The title and text of the dialog shown over the main screen, if any.
pub open spec fn modal_of(app: App) -> Option<(Seq<char>, Seq<char>)> {
    match app.screen {
        Screen::ConfirmDelete => Some(
            (" Confirm Delete "@, app.confirm_message@ + "\n\nPress y to confirm or Esc to cancel."@),
        ),
        Screen::Rename => Some((" Rename Session "@, app.confirm_message@ + "\n\n"@ + app.rename_buffer@)),
        Screen::NewFolder => Some((" New Folder "@, "Enter folder name:\n\n"@ + app.new_folder_buffer@)),
        Screen::MoveToFolder => Some(
            (" Move to Folder "@, app.confirm_message@ + "\n\nUse ↑/↓ and Enter to select."@),
        ),
        _ => None,
    }
}

/// The title and text of the dialog shown over the main screen, if any.
pub fn modal_text(app: &App) -> (r: Option<(&'static str, String)>)
    ensures
        match r {
            Some(m) => modal_of(*app) == Some((m.0@, m.1@)),
            None => modal_of(*app) is None,
        },
{
    match app.screen {
        Screen::ConfirmDelete => Some(
            (" Confirm Delete ", concat(app.confirm_message.as_str(), "\n\nPress y to confirm or Esc to cancel.")),
        ),
        Screen::Rename => {
            let a = concat(app.confirm_message.as_str(), "\n\n");
            Some((" Rename Session ", concat(a.as_str(), app.rename_buffer.as_str())))
        },
        Screen::NewFolder => Some((" New Folder ", concat("Enter folder name:\n\n", app.new_folder_buffer.as_str()))),
        Screen::MoveToFolder => Some(
            (" Move to Folder ", concat(app.confirm_message.as_str(), "\n\nUse ↑/↓ and Enter to select.")),
        ),
        _ => None,
    }
}

/// The height of the bar below the list: the status bar, or on the command
/// line up to six suggestions in a box above it.
pub open spec fn bottom_bar_rows(app: App) -> int {
    if app.input_mode == InputMode::Command {
        let n = app.command_suggestions@.len();
        (if n < 6 {
            n as int
        } else {
            6
        }) + 2 + 3
    } else {
        3
    }
}

/// The height of the bar below the list.
pub fn bottom_bar_height(app: &App) -> (r: u16)
    ensures
        r == bottom_bar_rows(*app),
{
    if matches!(app.input_mode, InputMode::Command) {
        let n = app.command_suggestions.len();
        let shown: u16 = if n < 6 {
            n as u16
        } else {
            6
        };
        shown + 5
    } else {
        3
    }
}


/// The month and day (`MM/DD`, UTC) of a time in milliseconds since the
/// Unix epoch, as chrono formats it; `None` for a time chrono cannot
/// represent.
pub uninterp spec fn month_day(ms: i64) -> Option<Seq<char>>;

/// Formats the month and day of a time.
///
/// Calls `chrono::DateTime::from_timestamp_millis` and formats the result
/// with `%m/%d`. The contract names the result, which depends on the time
/// alone (in UTC).
#[verifier::external_body]
fn fmt_month_day(ms: i64) -> (r: Option<String>)
    ensures
        opt_view(r) == month_day(ms),
{
    match chrono::DateTime::from_timestamp_millis(ms) {
        Some(dt) => Some(dt.format("%m/%d").to_string()),
        None => None,
    }
}

/// How long ago `updated` was at `now` (both in milliseconds), given the
/// date text `date` of `updated`: `now` under a minute (or in the future),
/// whole minutes, hours or days below an hour, a day or a week, else the
/// date. Without a date (a time chrono cannot represent) it is `now`.
pub open spec fn ago_of(date: Option<Seq<char>>, updated: i64, now: i64) -> Seq<char> {
    let diff = now - updated;
    match date {
        None => "now"@,
        Some(date) => if diff < 60_000 {
            "now"@
        } else if diff < 3_600_000 {
            dec_string((diff / 60_000) as nat) + "m"@
        } else if diff < 86_400_000 {
            dec_string((diff / 3_600_000) as nat) + "h"@
        } else if diff < 604_800_000 {
            dec_string((diff / 86_400_000) as nat) + "d"@
        } else {
            date
        },
    }
}

/// How long ago `updated` was at `now`, with the date as chrono gives it.
pub open spec fn ago_text(updated: i64, now: i64) -> Seq<char> {
    ago_of(month_day(updated), updated, now)
}

/// How long ago `updated` was at `now`, given the date text of `updated`
/// (`None` when there is none).
pub fn ago_from_date(date: Option<String>, updated: i64, now: i64) -> (r: String)
    ensures
        r@ == ago_of(opt_view(date), updated, now),
{
    match date {
        None => "now".to_owned(),
        Some(d) => {
            let diff: i128 = now as i128 - updated as i128;
            if diff < 60_000 {
                "now".to_owned()
            } else if diff < 3_600_000 {
                let n = fmt_decimal((diff / 60_000) as u128);
                concat(n.as_str(), "m")
            } else if diff < 86_400_000 {
                let n = fmt_decimal((diff / 3_600_000) as u128);
                concat(n.as_str(), "h")
            } else if diff < 604_800_000 {
                let n = fmt_decimal((diff / 86_400_000) as u128);
                concat(n.as_str(), "d")
            } else {
                d
            }
        },
    }
}

/// How long ago a session was updated, for the list.
pub fn short_ago(updated: i64, now: i64) -> (r: String)
    ensures
        r@ == ago_text(updated, now),
{
    let date = fmt_month_day(updated);
    ago_from_date(date, updated, now)
}

/// `text` padded with spaces to `width` characters, as `{:<width}` does.
pub open spec fn padded(text: Seq<char>, width: nat) -> Seq<char> {
    if text.len() >= width {
        text
    } else {
        text + Seq::new((width - text.len()) as nat, |i: int| ' ')
    }
}

/// Pads `text` with spaces to `width` characters.
pub fn pad_right(text: &str, width: usize) -> (r: String)
    ensures
        r@ == padded(text@, width as nat),
{
    let mut cs = chars_of(text);
    let n = cs.len();
    if n >= width {
        return text.to_owned();
    }
    let mut i: usize = n;
    while i < width
        invariant
            n <= i <= width,
            n == text@.len(),
            cs@ == text@ + Seq::new((i - n) as nat, |j: int| ' '),
        decreases width - i,
    {
        cs.push(' ');
        i = i + 1;
        assert(cs@ =~= text@ + Seq::new((i - n) as nat, |j: int| ' '));
    }
    string_of(&cs)
}

/// A row of the suggestion box: the longest start of the text that has at
/// most 16 bytes, padded to 16
/// characters after a space, and the description cut to fit what is left
/// of a box `inner_width` wide (none when fewer than 4 characters fit).
pub open spec fn suggestion_cells(text: Seq<char>, description: Seq<char>, inner_width: nat) -> (Seq<char>, Seq<char>) {
    let max_text = if inner_width > 2 {
        inner_width - 2
    } else {
        0
    };
    let room = if max_text > 18 {
        max_text - 18
    } else {
        0
    };
    let desc_width = if room < 30 {
        room
    } else {
        30
    };
    (
        seq![' '] + padded(byte_prefix_of(text, 16), 16),
        if description.len() == 0 || desc_width < 4 {
            Seq::empty()
        } else {
            description.take(if desc_width < description.len() {
                desc_width as int
            } else {
                description.len() as int
            })
        },
    )
}

/// The two cells of a suggestion's row in a box `inner_width` wide.
pub fn suggestion_row(text: &str, description: &str, inner_width: usize) -> (r: (String, String))
    ensures
        (r.0@, r.1@) == suggestion_cells(text@, description@, inner_width as nat),
{
    let max_text = if inner_width > 2 {
        inner_width - 2
    } else {
        0
    };
    let room = if max_text > 18 {
        max_text - 18
    } else {
        0
    };
    let desc_width = if room < 30 {
        room
    } else {
        30
    };
    let head = byte_prefix(text, 16);
    let mut label = String::new();
    push_char(&mut label, ' ');
    let padded_head = pad_right(head.as_str(), 16);
    let label = concat(label.as_str(), padded_head.as_str());
    assert(label@ =~= seq![' '] + padded(byte_prefix_of(text@, 16), 16));
    let desc = if description.is_empty() || desc_width < 4 {
        String::new()
    } else {
        let mut cs = chars_of(description);
        if desc_width < cs.len() {
            cs.truncate(desc_width);
        }
        assert(cs@ =~= description@.take(if desc_width < description@.len() {
            desc_width as int
        } else {
            description@.len() as int
        }));
        string_of(&cs)
    };
    (label, desc)
}


/// A time as the preview shows it (`YYYY-MM-DD HH:MM:SS UTC`), as chrono
/// formats it; `None` for a time chrono cannot represent.
pub uninterp spec fn datetime_text(ms: i64) -> Option<Seq<char>>;

/// Formats a time in milliseconds since the Unix epoch.
///
/// Calls `chrono::DateTime::from_timestamp_millis` and formats the result
/// with `%Y-%m-%d %H:%M:%S UTC`. The contract names the result, which
/// depends on the time alone.
#[verifier::external_body]
fn fmt_datetime(ms: i64) -> (r: Option<String>)
    ensures
        opt_view(r) == datetime_text(ms),
{
    match chrono::DateTime::from_timestamp_millis(ms) {
        Some(dt) => Some(dt.format("%Y-%m-%d %H:%M:%S UTC").to_string()),
        None => None,
    }
}

/// The decimal form of a signed number.
pub open spec fn signed_dec(n: int) -> Seq<char> {
    if n < 0 {
        seq!['-'] + dec_string((-n) as nat)
    } else {
        dec_string(n as nat)
    }
}

/// The decimal form of `n`, as `to_string` gives it.
pub fn fmt_signed(n: i64) -> (r: String)
    ensures
        r@ == signed_dec(n as int),
{
    if n < 0 {
        let m = (-(n as i128)) as u128;
        let d = fmt_decimal(m);
        let mut s = String::new();
        push_char(&mut s, '-');
        let r = concat(s.as_str(), d.as_str());
        assert(r@ =~= seq!['-'] + dec_string((-n) as nat));
        r
    } else {
        fmt_decimal(n as u128)
    }
}

/// `c` without one trailing carriage return.
pub open spec fn strip_cr(c: Seq<char>) -> Seq<char> {
    if c.len() > 0 && c.last() == '\r' {
        c.drop_last()
    } else {
        c
    }
}

/// The finished lines of `s` and the line being read, going left to right.
pub open spec fn lines_acc(s: Seq<char>) -> (Seq<Seq<char>>, Seq<char>)
    decreases s.len(),
{
    if s.len() == 0 {
        (Seq::empty(), Seq::empty())
    } else {
        let (d, c) = lines_acc(s.drop_last());
        if s.last() == '\n' {
            (d.push(strip_cr(c)), Seq::empty())
        } else {
            (d, c.push(s.last()))
        }
    }
}

/// The lines of `s` as `str::lines` yields them: split after each `\n`,
/// without the `\n` and a `\r` before it; a last line without `\n` counts
/// if it is not empty.
pub open spec fn lines_of(s: Seq<char>) -> Seq<Seq<char>> {
    let (d, c) = lines_acc(s);
    if c.len() > 0 {
        d.push(c)
    } else {
        d
    }
}

/// The lines of `s`, as `s.lines()`.
pub fn split_lines(s: &str) -> (r: Vec<String>)
    ensures
        r@.map_values(|l: String| l@) == lines_of(s@),
{
    let cs = chars_of(s);
    let mut done: Vec<String> = Vec::new();
    let mut cur: Vec<char> = Vec::new();
    let mut i: usize = 0;
    assert(cs@.take(0) =~= Seq::<char>::empty());
    while i < cs.len()
        invariant
            cs@ == s@,
            i <= cs@.len(),
            done@.map_values(|l: String| l@) == lines_acc(cs@.take(i as int)).0,
            cur@ == lines_acc(cs@.take(i as int)).1,
        decreases cs@.len() - i,
    {
        let c = cs[i];
        assert(cs@.take(i + 1).drop_last() =~= cs@.take(i as int));
        if c == '\n' {
            let ghost before = done@.map_values(|l: String| l@);
            if cur.len() > 0 && cur[cur.len() - 1] == '\r' {
                cur.pop();
            }
            done.push(string_of(&cur));
            assert(done@.map_values(|l: String| l@) =~= before.push(
                strip_cr(lines_acc(cs@.take(i as int)).1),
            ));
            cur = Vec::new();
        } else {
            cur.push(c);
        }
        i = i + 1;
    }
    assert(cs@.take(i as int) =~= cs@);
    if cur.len() > 0 {
        let ghost before = done@.map_values(|l: String| l@);
        done.push(string_of(&cur));
        assert(done@.map_values(|l: String| l@) =~= before.push(cur@));
    }
    done
}

/// A line of the preview.
#[derive(Debug, Clone, PartialEq, Eq)]
pub enum PreviewLine {
    /// A detail of the session, labelled.
    Meta { label: &'static str, value: String },
    Blank,
    /// A remark in place of the messages.
    Note(&'static str),
    /// The head of a message, from the user or from the assistant.
    Header { user: bool },
    /// A line of a message's text.
    Text(String),
    /// The foot of a message.
    Gutter { user: bool },
}

/// The characters of a preview line.
pub enum LineView {
    Meta(Seq<char>, Seq<char>),
    Blank,
    Note(Seq<char>),
    Header(bool),
    Text(Seq<char>),
    Gutter(bool),
}

/// The characters of a preview line.
pub open spec fn line_view(l: PreviewLine) -> LineView {
    match l {
        PreviewLine::Meta { label, value } => LineView::Meta(label@, value@),
        PreviewLine::Blank => LineView::Blank,
        PreviewLine::Note(n) => LineView::Note(n@),
        PreviewLine::Header { user } => LineView::Header(user),
        PreviewLine::Text(t) => LineView::Text(t@),
        PreviewLine::Gutter { user } => LineView::Gutter(user),
    }
}

/// The characters of each preview line.
pub open spec fn line_views(v: Seq<PreviewLine>) -> Seq<LineView> {
    v.map_values(|l: PreviewLine| line_view(l))
}

/// The lines of one message: a head, its text line by line, and a foot.
pub open spec fn message_block(role: Seq<char>, text: Seq<char>) -> Seq<LineView> {
    let user = role == "user"@;
    seq![LineView::Header(user)] + lines_of(text).map_values(|l: Seq<char>| LineView::Text(l)) + seq![
        LineView::Gutter(user),
    ]
}

/// The lines of the messages, one block after another.
pub open spec fn message_lines(ms: Seq<(String, String)>) -> Seq<LineView>
    decreases ms.len(),
{
    if ms.len() == 0 {
        Seq::empty()
    } else {
        message_lines(ms.drop_last()) + message_block(ms.last().0@, ms.last().1@)
    }
}

/// An optional text, or `-`.
pub open spec fn or_dash(o: Option<String>) -> Seq<char> {
    match o {
        Some(s) => s@,
        None => "-"@,
    }
}

/// The preview of a session, given the text of its update time (`None`
/// when there is none): its details, a blank line, then its messages (or a
/// remark that they are still loading, or that there are none).
pub open spec fn preview_with(s: Session, updated: Option<Seq<char>>) -> Seq<LineView> {
    seq![
        LineView::Meta("ID"@, s.id@),
        LineView::Meta("Slug"@, s.slug@),
        LineView::Meta("Project"@, s.project_name@),
        LineView::Meta("Agent"@, or_dash(s.agent)),
        LineView::Meta("Model"@, or_dash(s.model_name)),
        LineView::Meta("Files changed"@, signed_dec(s.summary_files as int)),
        LineView::Meta(
            "Updated"@,
            match updated {
                Some(t) => t,
                None => "-"@,
            },
        ),
        LineView::Blank,
    ] + if s.messages@.len() == 0 {
        seq![
            LineView::Note(
                if s.first_message_preview is Some {
                    "(loading messages...)"@
                } else {
                    "(no messages)"@
                },
            ),
        ]
    } else {
        message_lines(s.messages@)
    }
}

/// The preview of a session, with its update time as chrono formats it.
pub open spec fn preview_of(s: Session) -> Seq<LineView> {
    preview_with(s, datetime_text(s.updated_at))
}

fn dash_or(o: &Option<String>) -> (r: String)
    ensures
        r@ == or_dash(*o),
{
    match o {
        Some(s) => s.clone(),
        None => "-".to_owned(),
    }
}

/// The lines of the preview of `s`.
pub fn preview_lines(s: &Session) -> (r: Vec<PreviewLine>)
    ensures
        line_views(r@) == preview_of(*s),
{
    let updated = fmt_datetime(s.updated_at);
    preview_lines_with(s, updated)
}

/// The lines of the preview of `s`, given the text of its update time
/// (`None` when there is none).
pub fn preview_lines_with(s: &Session, updated: Option<String>) -> (r: Vec<PreviewLine>)
    ensures
        line_views(r@) == preview_with(*s, opt_view(updated)),
{
    let mut v: Vec<PreviewLine> = Vec::new();
    v.push(PreviewLine::Meta { label: "ID", value: s.id.clone() });
    v.push(PreviewLine::Meta { label: "Slug", value: s.slug.clone() });
    v.push(PreviewLine::Meta { label: "Project", value: s.project_name.clone() });
    v.push(PreviewLine::Meta { label: "Agent", value: dash_or(&s.agent) });
    v.push(PreviewLine::Meta { label: "Model", value: dash_or(&s.model_name) });
    v.push(PreviewLine::Meta { label: "Files changed", value: fmt_signed(s.summary_files) });
    let updated = match updated {
        Some(t) => t,
        None => "-".to_owned(),
    };
    v.push(PreviewLine::Meta { label: "Updated", value: updated });
    v.push(PreviewLine::Blank);
    let ghost head = line_views(v@);
    if s.messages.len() == 0 {
        let note = if s.first_message_preview.is_some() {
            "(loading messages...)"
        } else {
            "(no messages)"
        };
        v.push(PreviewLine::Note(note));
        assert(line_views(v@) =~= head + seq![LineView::Note(note@)]);
    } else {
        let mut k: usize = 0;
        assert(s.messages@.take(0) =~= Seq::<(String, String)>::empty());
        while k < s.messages.len()
            invariant
                k <= s.messages@.len(),
                line_views(v@) == head + message_lines(s.messages@.take(k as int)),
            decreases s.messages@.len() - k,
        {
            let (role, text) = (&s.messages[k].0, &s.messages[k].1);
            let user = str_eq(role.as_str(), "user");
            let ghost before = line_views(v@);
            v.push(PreviewLine::Header { user });
            let ls = split_lines(text.as_str());
            let mut j: usize = 0;
            while j < ls.len()
                invariant
                    j <= ls@.len(),
                    line_views(v@) == before + seq![LineView::Header(user)] + ls@.take(j as int).map_values(
                        |l: String| LineView::Text(l@),
                    ),
                decreases ls@.len() - j,
            {
                let ghost b2 = line_views(v@);
                v.push(PreviewLine::Text(ls[j].clone()));
                assert(ls@.take(j + 1).map_values(|l: String| LineView::Text(l@)) =~= ls@.take(
                    j as int,
                ).map_values(|l: String| LineView::Text(l@)).push(LineView::Text(ls@[j as int]@)));
                assert(line_views(v@) =~= b2.push(LineView::Text(ls@[j as int]@)));
                j = j + 1;
            }
            let ghost b3 = line_views(v@);
            v.push(PreviewLine::Gutter { user });
            proof {
                assert(line_views(v@) =~= b3.push(LineView::Gutter(user)));
                assert(ls@.take(j as int) =~= ls@);
                assert(ls@.map_values(|l: String| LineView::Text(l@)) =~= ls@.map_values(
                    |l: String| l@,
                ).map_values(|l: Seq<char>| LineView::Text(l)));
                assert(s.messages@.take(k + 1).drop_last() =~= s.messages@.take(k as int));
                assert(s.messages@.take(k + 1).last() == s.messages@[k as int]);
                assert(line_views(v@) =~= before + message_block(role@, text@));
            }
            k = k + 1;
        }
        assert(s.messages@.take(k as int) =~= s.messages@);
    }
    v
}

/// The last position the preview may scroll to, showing `available` lines
/// of `total`.
pub open spec fn preview_max_scroll(total: nat, available: nat) -> int {
    if total > available {
        total - available
    } else {
        0
    }
}

/// Keep the preview's scroll position where there is something to show.
pub fn clamp_preview_scroll(app: &mut App, total: usize, available: usize)
    ensures
        *final(app) == (App {
            preview_scroll: if old(app).preview_scroll > preview_max_scroll(total as nat, available as nat) {
                preview_max_scroll(total as nat, available as nat) as u16
            } else {
                old(app).preview_scroll
            },
            ..*old(app)
        }),
{
    let max_scroll = if total > available {
        total - available
    } else {
        0
    };
    if (app.preview_scroll as usize) > max_scroll {
        app.preview_scroll = max_scroll as u16;
    }
}

/// The position label of a scrolled preview: ` line:total `.
pub fn scroll_position(scroll: u16, total: usize) -> (r: String)
    ensures
        r@ == " "@ + dec_string((scroll + 1) as nat) + ":"@ + dec_string(total as nat) + " "@,
{
    let a = fmt_decimal(scroll as u128 + 1);
    let b = concat(" ", a.as_str());
    let c = concat(b.as_str(), ":");
    let d = fmt_decimal(total as u128);
    let e = concat(c.as_str(), d.as_str());
    concat(e.as_str(), " ")
}

} // verus!
