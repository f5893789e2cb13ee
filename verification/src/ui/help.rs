//! The keybindings help: the table of chords, and the modal that scrolls over it.

use vstd::prelude::*;
use crate::style::{Line, Modifier, Rect, Span, Style};
use crate::theme::Theme;
use crate::ui::layout::block_inner;
use crate::ui::picker::{body_and_footer, ListSurface};
use crate::ui::popups::{center, height_of_popup, width_of_popup};
use crate::ui::{layout, picker, popups};
use crate::width::{str_width, str_width_u16};
use crate::{style, text, width};

verus! {

/// One row of the help: a chord, the group that it belongs to and what it does.
#[derive(Clone, Copy, Debug, PartialEq, Eq)]
pub struct HotkeyRow {
    /// The group's label, shown above its first row.
    pub group: &'static str,
    /// The chord as shown.
    pub chord: &'static str,
    /// What the chord does.
    pub action: &'static str,
}

/// What a [`HotkeyRow`] holds.
#[verifier::ext_equal]
pub struct HotkeyRowView {
    pub group: Seq<char>,
    pub chord: Seq<char>,
    pub action: Seq<char>,
}

impl View for HotkeyRow {
    type V = HotkeyRowView;

    open spec fn view(&self) -> HotkeyRowView {
        HotkeyRowView { group: self.group@, chord: self.chord@, action: self.action@ }
    }
}

/// What a list of rows holds.
pub open spec fn row_views(v: Seq<HotkeyRow>) -> Seq<HotkeyRowView> {
    Seq::new(v.len(), |i: int| v[i]@)
}

broadcast proof fn row_views_push(v: Seq<HotkeyRow>, row: HotkeyRow)
    ensures
        #[trigger] row_views(v.push(row)) == row_views(v).push(row@),
{
    assert(row_views(v.push(row)) =~= row_views(v).push(row@));
}

/// The rows of one group.
pub open spec fn grouped(group: Seq<char>, keys: Seq<(Seq<char>, Seq<char>)>) -> Seq<HotkeyRowView> {
    Seq::new(
        keys.len(),
        |i: int| HotkeyRowView { group, chord: keys[i].0, action: keys[i].1 },
    )
}

fn push_key(
    rows: &mut Vec<HotkeyRow>,
    group: &'static str,
    chord: &'static str,
    action: &'static str,
)
    ensures
        row_views(final(rows)@) == row_views(old(rows)@).push(
            HotkeyRowView { group: group@, chord: chord@, action: action@ },
        ),
{
    broadcast use row_views_push;

    rows.push(HotkeyRow { group, chord, action });
}

/// The chords of the group `Global`.
pub open spec fn global_keys() -> Seq<(Seq<char>, Seq<char>)> {
    seq![
        ("F1"@, "open / close this keybindings help"@),
        ("Ctrl+C"@, "cancel the active request \u{00b7} quit when idle (confirmation)"@),
        ("Ctrl+N"@, "new chat"@),
        ("Ctrl+P"@, "clone the active thread (needs backend support)"@),
        ("Ctrl+R"@, "rename the active thread"@),
        ("Ctrl+D"@, "delete the active thread (confirmation)"@),
        ("Ctrl+F"@, "find in the active thread"@),
        ("Ctrl+Shift+F"@, "find in all threads"@),
        ("Ctrl+T"@, "toggle pane focus (chat / sidebar)"@),
        ("Ctrl+G"@, "open the diagnostics log viewer"@),
        ("Ctrl+O"@, "toggle the status strip"@),
        ("Ctrl+S"@, "toggle the thoughts block"@),
        ("Ctrl+M"@, "open the model picker"@),
        ("Ctrl+L"@, "stop the running request (confirmation)"@),
        ("Shift+Ctrl+L"@, "reset this thread \u{00b7} clear the dialog (confirmation)"@),
        ("Ctrl+\u{2191}/\u{2193} \u{00b7} Alt+\u{2191}/\u{2193}"@, "switch the active thread"@),
        ("PgUp / PgDn"@, "scroll the chat view"@),
        ("Wheel \u{2191} / \u{2193}"@, "scroll the chat \u{00b7} select in the focused sidebar"@),
        ("Drag-select"@, "highlight chat text \u{00b7} release copies it"@),
        ("y"@, "copy the active chat selection"@),
        ("Ctrl-chords"@, "work under RU / UA keyboard layouts"@),
        ("Esc"@, "clear the input \u{00b7} dismiss popups"@),
    ]
}

fn push_global_keys(rows: &mut Vec<HotkeyRow>)
    ensures
        row_views(final(rows)@) == row_views(old(rows)@) + grouped("Global"@, global_keys()),
{
    broadcast use row_views_push;

    let ghost before = row_views(rows@);
    push_key(rows, "Global", "F1", "open / close this keybindings help");
    push_key(rows, "Global", "Ctrl+C", "cancel the active request \u{00b7} quit when idle (confirmation)");
    push_key(rows, "Global", "Ctrl+N", "new chat");
    push_key(rows, "Global", "Ctrl+P", "clone the active thread (needs backend support)");
    push_key(rows, "Global", "Ctrl+R", "rename the active thread");
    push_key(rows, "Global", "Ctrl+D", "delete the active thread (confirmation)");
    push_key(rows, "Global", "Ctrl+F", "find in the active thread");
    push_key(rows, "Global", "Ctrl+Shift+F", "find in all threads");
    push_key(rows, "Global", "Ctrl+T", "toggle pane focus (chat / sidebar)");
    push_key(rows, "Global", "Ctrl+G", "open the diagnostics log viewer");
    push_key(rows, "Global", "Ctrl+O", "toggle the status strip");
    push_key(rows, "Global", "Ctrl+S", "toggle the thoughts block");
    push_key(rows, "Global", "Ctrl+M", "open the model picker");
    push_key(rows, "Global", "Ctrl+L", "stop the running request (confirmation)");
    push_key(rows, "Global", "Shift+Ctrl+L", "reset this thread \u{00b7} clear the dialog (confirmation)");
    push_key(rows, "Global", "Ctrl+\u{2191}/\u{2193} \u{00b7} Alt+\u{2191}/\u{2193}", "switch the active thread");
    push_key(rows, "Global", "PgUp / PgDn", "scroll the chat view");
    push_key(rows, "Global", "Wheel \u{2191} / \u{2193}", "scroll the chat \u{00b7} select in the focused sidebar");
    push_key(rows, "Global", "Drag-select", "highlight chat text \u{00b7} release copies it");
    push_key(rows, "Global", "y", "copy the active chat selection");
    push_key(rows, "Global", "Ctrl-chords", "work under RU / UA keyboard layouts");
    push_key(rows, "Global", "Esc", "clear the input \u{00b7} dismiss popups");
    assert(row_views(rows@) =~= before + grouped("Global"@, global_keys()));
}

/// The chords of the group `Input`.
pub open spec fn input_keys() -> Seq<(Seq<char>, Seq<char>)> {
    seq![
        ("Enter"@, "send the message (queues while busy)"@),
        ("\u{21e7}\u{21b5} / \u{2325}\u{21b5}"@, "insert a newline"@),
        ("\u{2191} / \u{2193}"@, "move the caret in the draft"@),
        ("Ctrl+A / Ctrl+E"@, "caret to line start / end"@),
        ("Ctrl+U"@, "delete to the start of the line"@),
        ("Ctrl+V / Cmd+V"@, "paste the clipboard"@),
        ("Backspace"@, "delete backwards"@),
        ("text"@, "type into the draft"@),
    ]
}

fn push_input_keys(rows: &mut Vec<HotkeyRow>)
    ensures
        row_views(final(rows)@) == row_views(old(rows)@) + grouped("Input"@, input_keys()),
{
    broadcast use row_views_push;

    let ghost before = row_views(rows@);
    push_key(rows, "Input", "Enter", "send the message (queues while busy)");
    push_key(rows, "Input", "\u{21e7}\u{21b5} / \u{2325}\u{21b5}", "insert a newline");
    push_key(rows, "Input", "\u{2191} / \u{2193}", "move the caret in the draft");
    push_key(rows, "Input", "Ctrl+A / Ctrl+E", "caret to line start / end");
    push_key(rows, "Input", "Ctrl+U", "delete to the start of the line");
    push_key(rows, "Input", "Ctrl+V / Cmd+V", "paste the clipboard");
    push_key(rows, "Input", "Backspace", "delete backwards");
    push_key(rows, "Input", "text", "type into the draft");
    assert(row_views(rows@) =~= before + grouped("Input"@, input_keys()));
}

/// The chords of the group `Sidebar (Ctrl+T)`.
pub open spec fn sidebar_keys() -> Seq<(Seq<char>, Seq<char>)> {
    seq![
        ("\u{2191} / \u{2193}"@, "select a thread (switches live)"@),
        ("Enter \u{00b7} Esc"@, "return to the editor"@),
    ]
}

fn push_sidebar_keys(rows: &mut Vec<HotkeyRow>)
    ensures
        row_views(final(rows)@) == row_views(old(rows)@) + grouped("Sidebar (Ctrl+T)"@, sidebar_keys()),
{
    broadcast use row_views_push;

    let ghost before = row_views(rows@);
    push_key(rows, "Sidebar (Ctrl+T)", "\u{2191} / \u{2193}", "select a thread (switches live)");
    push_key(rows, "Sidebar (Ctrl+T)", "Enter \u{00b7} Esc", "return to the editor");
    assert(row_views(rows@) =~= before + grouped("Sidebar (Ctrl+T)"@, sidebar_keys()));
}

/// The chords of the group `Rename (Ctrl+R)`.
pub open spec fn rename_keys() -> Seq<(Seq<char>, Seq<char>)> {
    seq![
        ("Enter"@, "save the title"@),
        ("\u{21e7}\u{21b5} / \u{2325}\u{21b5}"@, "insert a newline into the title"@),
        ("Backspace"@, "delete backwards"@),
        ("Esc"@, "cancel the rename"@),
    ]
}

fn push_rename_keys(rows: &mut Vec<HotkeyRow>)
    ensures
        row_views(final(rows)@) == row_views(old(rows)@) + grouped("Rename (Ctrl+R)"@, rename_keys()),
{
    broadcast use row_views_push;

    let ghost before = row_views(rows@);
    push_key(rows, "Rename (Ctrl+R)", "Enter", "save the title");
    push_key(rows, "Rename (Ctrl+R)", "\u{21e7}\u{21b5} / \u{2325}\u{21b5}", "insert a newline into the title");
    push_key(rows, "Rename (Ctrl+R)", "Backspace", "delete backwards");
    push_key(rows, "Rename (Ctrl+R)", "Esc", "cancel the rename");
    assert(row_views(rows@) =~= before + grouped("Rename (Ctrl+R)"@, rename_keys()));
}

/// The chords of the group `Delete (Ctrl+D)`.
pub open spec fn delete_keys() -> Seq<(Seq<char>, Seq<char>)> {
    seq![
        ("Enter \u{00b7} y"@, "confirm the delete"@),
        ("Esc \u{00b7} n"@, "cancel"@),
    ]
}

fn push_delete_keys(rows: &mut Vec<HotkeyRow>)
    ensures
        row_views(final(rows)@) == row_views(old(rows)@) + grouped("Delete (Ctrl+D)"@, delete_keys()),
{
    broadcast use row_views_push;

    let ghost before = row_views(rows@);
    push_key(rows, "Delete (Ctrl+D)", "Enter \u{00b7} y", "confirm the delete");
    push_key(rows, "Delete (Ctrl+D)", "Esc \u{00b7} n", "cancel");
    assert(row_views(rows@) =~= before + grouped("Delete (Ctrl+D)"@, delete_keys()));
}

/// The chords of the group `Model picker (Ctrl+M)`.
pub open spec fn picker_keys() -> Seq<(Seq<char>, Seq<char>)> {
    seq![
        ("\u{2191} / \u{2193}"@, "move the selection"@),
        ("PgUp / PgDn"@, "page the selection"@),
        ("Enter"@, "apply the highlighted model"@),
        ("Esc"@, "close without switching"@),
    ]
}

fn push_picker_keys(rows: &mut Vec<HotkeyRow>)
    ensures
        row_views(final(rows)@) == row_views(old(rows)@) + grouped("Model picker (Ctrl+M)"@, picker_keys()),
{
    broadcast use row_views_push;

    let ghost before = row_views(rows@);
    push_key(rows, "Model picker (Ctrl+M)", "\u{2191} / \u{2193}", "move the selection");
    push_key(rows, "Model picker (Ctrl+M)", "PgUp / PgDn", "page the selection");
    push_key(rows, "Model picker (Ctrl+M)", "Enter", "apply the highlighted model");
    push_key(rows, "Model picker (Ctrl+M)", "Esc", "close without switching");
    assert(row_views(rows@) =~= before + grouped("Model picker (Ctrl+M)"@, picker_keys()));
}

/// The chords of the group `Find in thread (Ctrl+F)`.
pub open spec fn find_keys() -> Seq<(Seq<char>, Seq<char>)> {
    seq![
        ("text"@, "edit the query (live filter)"@),
        ("Backspace"@, "delete backwards"@),
        ("\u{2191} / \u{2193}"@, "walk the matches"@),
        ("Enter"@, "jump to the match \u{00b7} close"@),
        ("Esc"@, "close without jumping"@),
    ]
}

fn push_find_keys(rows: &mut Vec<HotkeyRow>)
    ensures
        row_views(final(rows)@) == row_views(old(rows)@) + grouped("Find in thread (Ctrl+F)"@, find_keys()),
{
    broadcast use row_views_push;

    let ghost before = row_views(rows@);
    push_key(rows, "Find in thread (Ctrl+F)", "text", "edit the query (live filter)");
    push_key(rows, "Find in thread (Ctrl+F)", "Backspace", "delete backwards");
    push_key(rows, "Find in thread (Ctrl+F)", "\u{2191} / \u{2193}", "walk the matches");
    push_key(rows, "Find in thread (Ctrl+F)", "Enter", "jump to the match \u{00b7} close");
    push_key(rows, "Find in thread (Ctrl+F)", "Esc", "close without jumping");
    assert(row_views(rows@) =~= before + grouped("Find in thread (Ctrl+F)"@, find_keys()));
}

/// The chords of the group `Find everywhere`.
pub open spec fn find_all_keys() -> Seq<(Seq<char>, Seq<char>)> {
    seq![
        ("text"@, "edit the query (live filter)"@),
        ("Backspace"@, "delete backwards"@),
        ("\u{2191} / \u{2193}"@, "walk the matches"@),
        ("Enter"@, "activate the match's thread \u{00b7} jump"@),
        ("Esc"@, "close without jumping"@),
    ]
}

fn push_find_all_keys(rows: &mut Vec<HotkeyRow>)
    ensures
        row_views(final(rows)@) == row_views(old(rows)@) + grouped("Find everywhere (Ctrl+\u{21e7}F)"@, find_all_keys()),
{
    broadcast use row_views_push;

    let ghost before = row_views(rows@);
    push_key(rows, "Find everywhere (Ctrl+\u{21e7}F)", "text", "edit the query (live filter)");
    push_key(rows, "Find everywhere (Ctrl+\u{21e7}F)", "Backspace", "delete backwards");
    push_key(rows, "Find everywhere (Ctrl+\u{21e7}F)", "\u{2191} / \u{2193}", "walk the matches");
    push_key(rows, "Find everywhere (Ctrl+\u{21e7}F)", "Enter", "activate the match's thread \u{00b7} jump");
    push_key(rows, "Find everywhere (Ctrl+\u{21e7}F)", "Esc", "close without jumping");
    assert(row_views(rows@) =~= before + grouped("Find everywhere (Ctrl+\u{21e7}F)"@, find_all_keys()));
}

/// The chords of the group `Log viewer (Ctrl+G)`.
pub open spec fn log_keys() -> Seq<(Seq<char>, Seq<char>)> {
    seq![
        ("\u{2191} / \u{2193} \u{00b7} k / j"@, "move the cursor one line"@),
        ("PgUp / PgDn"@, "page the view"@),
        ("g / G"@, "jump to the top / the tail"@),
        ("w"@, "toggle wrap"@),
        ("/"@, "search the log"@),
        ("n / N"@, "next / previous match"@),
        ("y"@, "copy the cursor line"@),
        ("Esc"@, "close"@),
    ]
}

fn push_log_keys(rows: &mut Vec<HotkeyRow>)
    ensures
        row_views(final(rows)@) == row_views(old(rows)@) + grouped("Log viewer (Ctrl+G)"@, log_keys()),
{
    broadcast use row_views_push;

    let ghost before = row_views(rows@);
    push_key(rows, "Log viewer (Ctrl+G)", "\u{2191} / \u{2193} \u{00b7} k / j", "move the cursor one line");
    push_key(rows, "Log viewer (Ctrl+G)", "PgUp / PgDn", "page the view");
    push_key(rows, "Log viewer (Ctrl+G)", "g / G", "jump to the top / the tail");
    push_key(rows, "Log viewer (Ctrl+G)", "w", "toggle wrap");
    push_key(rows, "Log viewer (Ctrl+G)", "/", "search the log");
    push_key(rows, "Log viewer (Ctrl+G)", "n / N", "next / previous match");
    push_key(rows, "Log viewer (Ctrl+G)", "y", "copy the cursor line");
    push_key(rows, "Log viewer (Ctrl+G)", "Esc", "close");
    assert(row_views(rows@) =~= before + grouped("Log viewer (Ctrl+G)"@, log_keys()));
}

/// The chords of the group `Log search (/)`.
pub open spec fn log_search_keys() -> Seq<(Seq<char>, Seq<char>)> {
    seq![
        ("text"@, "edit the pattern"@),
        ("Backspace"@, "delete backwards"@),
        ("Enter"@, "commit the search"@),
        ("Esc"@, "cancel the search"@),
    ]
}

fn push_log_search_keys(rows: &mut Vec<HotkeyRow>)
    ensures
        row_views(final(rows)@) == row_views(old(rows)@) + grouped("Log search (/)"@, log_search_keys()),
{
    broadcast use row_views_push;

    let ghost before = row_views(rows@);
    push_key(rows, "Log search (/)", "text", "edit the pattern");
    push_key(rows, "Log search (/)", "Backspace", "delete backwards");
    push_key(rows, "Log search (/)", "Enter", "commit the search");
    push_key(rows, "Log search (/)", "Esc", "cancel the search");
    assert(row_views(rows@) =~= before + grouped("Log search (/)"@, log_search_keys()));
}

/// The chords of the group `Error popup`.
pub open spec fn error_keys() -> Seq<(Seq<char>, Seq<char>)> {
    seq![
        ("R"@, "reconnect"@),
        ("q"@, "quit (confirmation)"@),
        ("Esc \u{00b7} any key"@, "dismiss"@),
    ]
}

fn push_error_keys(rows: &mut Vec<HotkeyRow>)
    ensures
        row_views(final(rows)@) == row_views(old(rows)@) + grouped("Error popup"@, error_keys()),
{
    broadcast use row_views_push;

    let ghost before = row_views(rows@);
    push_key(rows, "Error popup", "R", "reconnect");
    push_key(rows, "Error popup", "q", "quit (confirmation)");
    push_key(rows, "Error popup", "Esc \u{00b7} any key", "dismiss");
    assert(row_views(rows@) =~= before + grouped("Error popup"@, error_keys()));
}

/// The chords of the group `Quit confirm`.
pub open spec fn quit_keys() -> Seq<(Seq<char>, Seq<char>)> {
    seq![
        ("y \u{00b7} Enter"@, "quit"@),
        ("Esc \u{00b7} n \u{00b7} q"@, "stay"@),
    ]
}

fn push_quit_keys(rows: &mut Vec<HotkeyRow>)
    ensures
        row_views(final(rows)@) == row_views(old(rows)@) + grouped("Quit confirm"@, quit_keys()),
{
    broadcast use row_views_push;

    let ghost before = row_views(rows@);
    push_key(rows, "Quit confirm", "y \u{00b7} Enter", "quit");
    push_key(rows, "Quit confirm", "Esc \u{00b7} n \u{00b7} q", "stay");
    assert(row_views(rows@) =~= before + grouped("Quit confirm"@, quit_keys()));
}

/// The chords of the group `Help (F1)`.
pub open spec fn help_keys() -> Seq<(Seq<char>, Seq<char>)> {
    seq![
        ("\u{2191} / \u{2193} \u{00b7} PgUp / PgDn"@, "scroll the list"@),
        ("F1 \u{00b7} Esc"@, "close"@),
    ]
}

fn push_help_keys(rows: &mut Vec<HotkeyRow>)
    ensures
        row_views(final(rows)@) == row_views(old(rows)@) + grouped("Help (F1)"@, help_keys()),
{
    broadcast use row_views_push;

    let ghost before = row_views(rows@);
    push_key(rows, "Help (F1)", "\u{2191} / \u{2193} \u{00b7} PgUp / PgDn", "scroll the list");
    push_key(rows, "Help (F1)", "F1 \u{00b7} Esc", "close");
    assert(row_views(rows@) =~= before + grouped("Help (F1)"@, help_keys()));
}

/// Every chord that does something, grouped by the surface that takes it.
pub open spec fn hotkeys() -> Seq<HotkeyRowView> {
    grouped("Global"@, global_keys())
        + grouped("Input"@, input_keys())
        + grouped("Sidebar (Ctrl+T)"@, sidebar_keys())
        + grouped("Rename (Ctrl+R)"@, rename_keys())
        + grouped("Delete (Ctrl+D)"@, delete_keys())
        + grouped("Model picker (Ctrl+M)"@, picker_keys())
        + grouped("Find in thread (Ctrl+F)"@, find_keys())
        + grouped("Find everywhere (Ctrl+\u{21e7}F)"@, find_all_keys())
        + grouped("Log viewer (Ctrl+G)"@, log_keys())
        + grouped("Log search (/)"@, log_search_keys())
        + grouped("Error popup"@, error_keys())
        + grouped("Quit confirm"@, quit_keys())
        + grouped("Help (F1)"@, help_keys())
}

/// The table of chords.
pub fn hotkey_rows() -> (r: Vec<HotkeyRow>)
    ensures
        row_views(r@) == hotkeys(),
{
    let mut rows: Vec<HotkeyRow> = Vec::new();
    assert(row_views(rows@) =~= Seq::empty());
    assert(Seq::<HotkeyRowView>::empty() + grouped("Global"@, global_keys()) =~= grouped(
        "Global"@,
        global_keys(),
    ));
    push_global_keys(&mut rows);
    push_input_keys(&mut rows);
    push_sidebar_keys(&mut rows);
    push_rename_keys(&mut rows);
    push_delete_keys(&mut rows);
    push_picker_keys(&mut rows);
    push_find_keys(&mut rows);
    push_find_all_keys(&mut rows);
    push_log_keys(&mut rows);
    push_log_search_keys(&mut rows);
    push_error_keys(&mut rows);
    push_quit_keys(&mut rows);
    push_help_keys(&mut rows);
    rows
}

/// Whether the row at `i` is the first of its group.
pub open spec fn opens_group(rows: Seq<HotkeyRowView>, i: int) -> bool {
    rows[i].group != (if i == 0 {
        ""@
    } else {
        rows[i - 1].group
    })
}

/// The lines that the first `n` rows take, with their group headers.
pub open spec fn line_count(rows: Seq<HotkeyRowView>, n: int) -> nat
    decreases n,
{
    if n <= 0 {
        0
    } else {
        line_count(rows, n - 1) + (if opens_group(rows, n - 1) {
            2nat
        } else {
            1nat
        })
    }
}

fn opens(rows: &Vec<HotkeyRow>, i: usize) -> (r: bool)
    requires
        i < rows@.len(),
    ensures
        r == opens_group(row_views(rows@), i as int),
{
    assert(row_views(rows@)[i as int] == rows@[i as int]@);
    if i == 0 {
        !text::same_text(rows[i].group, "")
    } else {
        assert(row_views(rows@)[i - 1] == rows@[i - 1]@);
        !text::same_text(rows[i].group, rows[i - 1].group)
    }
}

proof fn lemma_line_count_bound(rows: Seq<HotkeyRowView>, n: int)
    requires
        n >= 0,
    ensures
        n <= line_count(rows, n) <= 2 * n,
    decreases n,
{
    if n > 0 {
        lemma_line_count_bound(rows, n - 1);
    }
}

/// The lines of the whole help: one for each row, and a header for each group.
pub fn help_modal_total_lines() -> (r: usize)
    ensures
        r as nat == line_count(hotkeys(), hotkeys().len() as int),
{
    let rows = hotkey_rows();
    let mut total: usize = 0;
    let mut i: usize = 0;
    proof {
        lemma_hotkeys_len();
        assert(row_views(rows@).len() == rows@.len());
    }
    while i < rows.len()
        invariant
            i <= rows@.len(),
            rows@.len() <= 71,
            row_views(rows@) == hotkeys(),
            total == line_count(hotkeys(), i as int),
        decreases rows@.len() - i,
    {
        proof {
            lemma_line_count_bound(hotkeys(), i as int);
        }
        if opens(&rows, i) {
            total += 2;
        } else {
            total += 1;
        }
        i += 1;
    }
    assert(row_views(rows@).len() == rows@.len());
    total
}

proof fn lemma_hotkeys_len()
    ensures
        hotkeys().len() == 71,
{
}

/// Which group the row at `i` belongs to.
spec fn slot(i: int) -> int {
    if i < 22 {
        0
    } else if i < 30 {
        1
    } else if i < 32 {
        2
    } else if i < 36 {
        3
    } else if i < 38 {
        4
    } else if i < 42 {
        5
    } else if i < 47 {
        6
    } else if i < 52 {
        7
    } else if i < 60 {
        8
    } else if i < 64 {
        9
    } else if i < 67 {
        10
    } else if i < 69 {
        11
    } else {
        12
    }
}

/// The label of a group.
spec fn slot_name(k: int) -> Seq<char> {
    if k == 0 {
        "Global"@
    } else if k == 1 {
        "Input"@
    } else if k == 2 {
        "Sidebar (Ctrl+T)"@
    } else if k == 3 {
        "Rename (Ctrl+R)"@
    } else if k == 4 {
        "Delete (Ctrl+D)"@
    } else if k == 5 {
        "Model picker (Ctrl+M)"@
    } else if k == 6 {
        "Find in thread (Ctrl+F)"@
    } else if k == 7 {
        "Find everywhere (Ctrl+\u{21e7}F)"@
    } else if k == 8 {
        "Log viewer (Ctrl+G)"@
    } else if k == 9 {
        "Log search (/)"@
    } else if k == 10 {
        "Error popup"@
    } else if k == 11 {
        "Quit confirm"@
    } else {
        "Help (F1)"@
    }
}

proof fn lemma_slot(i: int)
    requires
        0 <= i < 71,
    ensures
        hotkeys().len() == 71,
        hotkeys()[i].group == slot_name(slot(i)),
{
}

proof fn lemma_names_differ(a: int, b: int)
    requires
        0 <= a < 13,
        0 <= b < 13,
        slot_name(a) == slot_name(b),
    ensures
        a == b,
{
    reveal_strlit("Global");
    reveal_strlit("Input");
    reveal_strlit("Sidebar (Ctrl+T)");
    reveal_strlit("Rename (Ctrl+R)");
    reveal_strlit("Delete (Ctrl+D)");
    reveal_strlit("Model picker (Ctrl+M)");
    reveal_strlit("Find in thread (Ctrl+F)");
    reveal_strlit("Find everywhere (Ctrl+\u{21e7}F)");
    reveal_strlit("Log viewer (Ctrl+G)");
    reveal_strlit("Log search (/)");
    reveal_strlit("Error popup");
    reveal_strlit("Quit confirm");
    reveal_strlit("Help (F1)");
    assert(slot_name(0).len() == 6);
    assert(slot_name(1).len() == 5);
    assert(slot_name(2).len() == 16);
    assert(slot_name(3).len() == 15);
    assert(slot_name(4).len() == 15);
    assert(slot_name(5).len() == 21);
    assert(slot_name(6).len() == 23);
    assert(slot_name(7).len() == 25);
    assert(slot_name(8).len() == 19);
    assert(slot_name(9).len() == 14);
    assert(slot_name(10).len() == 11);
    assert(slot_name(11).len() == 12);
    assert(slot_name(12).len() == 9);
    if a == 3 && b == 4 {
        assert(slot_name(a)[0] == 'R' && slot_name(b)[0] == 'D');
    }
    if a == 4 && b == 3 {
        assert(slot_name(a)[0] == 'D' && slot_name(b)[0] == 'R');
    }
}

/// Groups are contiguous: between two rows of one group stands no row of
/// another, so each group has one header.
pub proof fn law_groups_contiguous(i: int, j: int, k: int)
    requires
        0 <= i <= j <= k < hotkeys().len(),
        hotkeys()[i].group == hotkeys()[k].group,
    ensures
        hotkeys()[j].group == hotkeys()[i].group,
{
    lemma_hotkeys_len();
    lemma_slot(i);
    lemma_slot(j);
    lemma_slot(k);
    lemma_names_differ(slot(i), slot(k));
}

/// `s` filled up with blanks to `n` characters.
pub open spec fn padded(s: Seq<char>, n: nat) -> Seq<char> {
    s + text::repeated(' ', layout::less(n as int, s.len() as int) as nat)
}

/// One row of the help.
pub open spec fn key_line(row: HotkeyRowView, chord_width: nat, theme: Theme) -> style::LineView {
    style::line(
        seq![
            style::span(padded(row.chord, chord_width), style::fg(theme.cyan)),
            style::span("  "@, style::plain()),
            style::span(row.action, style::fg(theme.fg)),
        ],
    )
}

/// The lines of the first `n` rows.
pub open spec fn help_lines(
    rows: Seq<HotkeyRowView>,
    chord_width: nat,
    theme: Theme,
    n: int,
) -> Seq<style::LineView>
    decreases n,
{
    if n <= 0 {
        Seq::empty()
    } else {
        let before = help_lines(rows, chord_width, theme, n - 1);
        let headed = if opens_group(rows, n - 1) {
            before.push(
                style::line_of(rows[n - 1].group, style::fg(theme.dim).plus(Modifier::Bold)),
            )
        } else {
            before
        };
        headed.push(key_line(rows[n - 1], chord_width, theme))
    }
}

proof fn lemma_help_lines_len(rows: Seq<HotkeyRowView>, chord_width: nat, theme: Theme, n: int)
    ensures
        help_lines(rows, chord_width, theme, n).len() == line_count(rows, n),
    decreases n,
{
    if n > 0 {
        lemma_help_lines_len(rows, chord_width, theme, n - 1);
    }
}

/// The columns of the widest chord among the first `n` rows.
pub open spec fn widest_chord(rows: Seq<HotkeyRowView>, n: int) -> nat
    decreases n,
{
    if n <= 0 {
        0
    } else if width::columns(rows[n - 1].chord) > widest_chord(rows, n - 1) {
        width::columns(rows[n - 1].chord)
    } else {
        widest_chord(rows, n - 1)
    }
}

/// The columns of the widest action among the first `n` rows.
pub open spec fn widest_action(rows: Seq<HotkeyRowView>, n: int) -> nat
    decreases n,
{
    if n <= 0 {
        0
    } else if width::columns(rows[n - 1].action) > widest_action(rows, n - 1) {
        width::columns(rows[n - 1].action)
    } else {
        widest_action(rows, n - 1)
    }
}

/// The columns of the chord column.
pub open spec fn chord_column() -> nat {
    widest_chord(hotkeys(), hotkeys().len() as int)
}

/// The columns of the widest row, as a screen coordinate.
pub open spec fn help_row_width() -> int {
    ((chord_column() + 2 + widest_action(hotkeys(), hotkeys().len() as int)) % 65536) as int
}

/// The decision hint of the help.
pub const HELP_HINT: &'static str =
    "\u{2191}\u{2193} scroll \u{00b7} PgUp/PgDn page \u{00b7} F1/Esc close";

/// The columns that the help wants in a frame.
pub open spec fn help_need(frame_width: u16) -> int {
    let rows = help_row_width() + 6;
    popups::greater(
        (width::columns(HELP_HINT@) % 65536) as int + 12,
        if rows < popups::max_popup_width(frame_width) {
            rows
        } else {
            popups::max_popup_width(frame_width)
        },
    )
}

/// Most rows of the help's body.
pub const HELP_ROWS: usize = 24;

/// The rows that the help's body wants in a frame.
pub open spec fn help_rows(frame_height: u16, total: int) -> int {
    let room = popups::greater(layout::less(frame_height as int, 6), 1);
    let most = if total < HELP_ROWS {
        total
    } else {
        HELP_ROWS as int
    };
    if most < room {
        most
    } else {
        room
    }
}

/// The help's box.
pub open spec fn help_area(frame: Rect) -> Rect {
    popups::centered(
        frame,
        popups::popup_width(frame.width, help_need(frame.width)),
        popups::popup_height(
            frame.height,
            help_rows(frame.height, line_count(hotkeys(), hotkeys().len() as int) as int) + 3,
        ),
    )
}

/// The first line on screen: no further down than the last page.
pub open spec fn help_offset(scroll: usize, body: Rect) -> int {
    let most = layout::less(
        line_count(hotkeys(), hotkeys().len() as int) as int,
        body.height as int,
    );
    if scroll < most {
        scroll as int
    } else {
        most
    }
}

/// The lines on screen.
pub open spec fn help_window(scroll: usize, body: Rect, theme: Theme) -> Seq<style::LineView> {
    let all = help_lines(hotkeys(), chord_column(), theme, hotkeys().len() as int);
    let start = help_offset(scroll, body);
    all.subrange(
        start,
        if start + body.height < all.len() {
            start + body.height
        } else {
            all.len() as int
        },
    )
}

fn column_widths(rows: &Vec<HotkeyRow>) -> (r: (usize, usize))
    ensures
        r.0 as nat == widest_chord(row_views(rows@), rows@.len() as int),
        r.1 as nat == widest_action(row_views(rows@), rows@.len() as int),
{
    let mut chord: usize = 0;
    let mut action: usize = 0;
    let mut i: usize = 0;
    while i < rows.len()
        invariant
            i <= rows@.len(),
            chord == widest_chord(row_views(rows@), i as int),
            action == widest_action(row_views(rows@), i as int),
        decreases rows@.len() - i,
    {
        assert(row_views(rows@)[i as int] == rows@[i as int]@);
        let c = str_width(rows[i].chord);
        if c > chord {
            chord = c;
        }
        let a = str_width(rows[i].action);
        if a > action {
            action = a;
        }
        i += 1;
    }
    (chord, action)
}

fn all_help_lines(rows: &Vec<HotkeyRow>, chord_width: usize, theme: &Theme) -> (r: Vec<Line>)
    ensures
        style::line_views(r@) == help_lines(
            row_views(rows@),
            chord_width as nat,
            *theme,
            rows@.len() as int,
        ),
{
    let mut lines: Vec<Line> = Vec::new();
    let mut i: usize = 0;
    assert(style::line_views(lines@) =~= Seq::empty());
    while i < rows.len()
        invariant
            i <= rows@.len(),
            style::line_views(lines@) == help_lines(
                row_views(rows@),
                chord_width as nat,
                *theme,
                i as int,
            ),
        decreases rows@.len() - i,
    {
        broadcast use {style::span_views_push, style::line_views_push};

        let row = rows[i];
        assert(row_views(rows@)[i as int] == row@);
        if opens(rows, i) {
            lines.push(
                Line::styled(
                    text::owned(row.group),
                    Style::new().fg(theme.dim).add_modifier(Modifier::Bold),
                ),
            );
        }
        let chars = text::to_chars(row.chord);
        let blanks = text::repeat(' ', chord_width.saturating_sub(chars.len()));
        let chord = text::concat(row.chord, blanks.as_str());
        let mut spans: Vec<Span> = Vec::new();
        spans.push(Span::styled(chord, Style::new().fg(theme.cyan)));
        spans.push(Span::raw(text::owned("  ")));
        spans.push(Span::styled(text::owned(row.action), Style::new().fg(theme.fg)));
        assert(style::span_views(spans@) =~= key_line(row@, chord_width as nat, *theme).spans);
        lines.push(Line::from_spans(spans));
        i += 1;
    }
    lines
}

/// Builds the help. Returns it with the first line on screen, which may be
/// less than `scroll` asked for.
pub fn render_help_modal(scroll: usize, frame: Rect, theme: &Theme) -> (r: (ListSurface, usize))
    requires
        frame.fits(),
        frame.y + 3 <= u16::MAX,
    ensures
        r.0.area == help_area(frame),
        r.0.body == picker::body_area(layout::inner_area(r.0.area, 1)),
        r.0.footer == picker::footer_area(layout::inner_area(r.0.area, 1)),
        r.0.title@ == style::line_of(
            " Keybindings "@,
            style::fg(theme.blue).plus(Modifier::Bold),
        ),
        r.0.border == theme.blue,
        r.0.background == theme.bg,
        r.1 as int == help_offset(scroll, r.0.body),
        style::line_views(r.0.rows@) == help_window(scroll, r.0.body, *theme),
        r.0.hint@ == style::line_of(HELP_HINT@, style::fg(theme.yellow)),
        r.0.selected is None,
        r.0.highlight == style::plain(),
        r.0.symbol@ == ""@,
        r.0.page == picker::page_rows(r.0.body),
{
    let table = hotkey_rows();
    assert(row_views(table@).len() == table@.len());
    let (chord_width, action_width) = column_widths(&table);
    let row_width: u32 = (((chord_width as u128) + 2 + (action_width as u128)) % 65536) as u32;
    let most: u32 = if frame.width < 24 {
        20
    } else {
        (frame.width - 4) as u32
    };
    let rows_want: u32 = if row_width + 6 < most {
        row_width + 6
    } else {
        most
    };
    let hint_want: u32 = str_width_u16(HELP_HINT) as u32 + 12;
    let wanted: u32 = if hint_want > rows_want {
        hint_want
    } else {
        rows_want
    };
    let total = help_modal_total_lines();
    let mut body_rows: usize = if total < HELP_ROWS {
        total
    } else {
        HELP_ROWS
    };
    let mut room: usize = frame.height.saturating_sub(6) as usize;
    if room < 1 {
        room = 1;
    }
    if body_rows > room {
        body_rows = room;
    }
    let area = center(
        frame,
        width_of_popup(frame.width, wanted),
        height_of_popup(frame.height, body_rows as u16 + 3),
    );
    let inner = block_inner(area, 1);
    let (body, footer) = body_and_footer(inner);
    let page: u16 = if body.height == 0 {
        1
    } else {
        body.height
    };
    let visible: usize = body.height as usize;
    let last: usize = total.saturating_sub(visible);
    let start: usize = if scroll < last {
        scroll
    } else {
        last
    };
    let all = all_help_lines(&table, chord_width, theme);
    proof {
        lemma_help_lines_len(hotkeys(), chord_column(), *theme, hotkeys().len() as int);
        lemma_hotkeys_len();
        lemma_line_count_bound(hotkeys(), hotkeys().len() as int);
    }
    let end: usize = if start + visible < total {
        start + visible
    } else {
        total
    };
    let ghost goal = help_window(scroll, body, *theme);
    let mut rows: Vec<Line> = Vec::new();
    let mut i: usize = start;
    assert(style::line_views(all@).len() == all@.len());
    assert(style::line_views(rows@) =~= goal.take(0));
    while i < end
        invariant
            start <= i <= end <= all@.len(),
            goal == style::line_views(all@).subrange(start as int, end as int),
            style::line_views(rows@) == goal.take(i - start),
        decreases end - i,
    {
        broadcast use style::line_views_push;

        assert(style::line_views(all@)[i as int] == all@[i as int]@);
        rows.push(all[i].clone());
        i += 1;
        assert(goal.take(i - start) =~= goal.take(i - 1 - start).push(goal[i - 1 - start]));
    }
    assert(goal.take(i - start) =~= goal);
    (
        ListSurface {
            area,
            body,
            footer,
            title: Line::styled(
                text::owned(" Keybindings "),
                Style::new().fg(theme.blue).add_modifier(Modifier::Bold),
            ),
            border: theme.blue,
            background: theme.bg,
            rows,
            hint: Line::styled(text::owned(HELP_HINT), Style::new().fg(theme.yellow)),
            selected: None,
            highlight: Style::new(),
            symbol: "",
            page,
        },
        start,
    )
}

/// Every line of the help can be scrolled to.
pub proof fn law_help_reaches_end(body: Rect, line: int)
    requires
        body.height > 0,
        0 <= line < line_count(hotkeys(), hotkeys().len() as int) <= usize::MAX,
    ensures
        exists|scroll: usize|
            #[trigger] help_offset(scroll, body) <= line < help_offset(scroll, body)
                + body.height,
{
    let total = line_count(hotkeys(), hotkeys().len() as int) as int;
    let s = line as usize;
    assert(help_offset(s, body) <= line < help_offset(s, body) + body.height);
}

/// Every hotkey has its line in the help, with its chord and what it does, and a
/// heading above the first one of its group.
pub proof fn law_help_lists_every_key(
    rows: Seq<HotkeyRowView>,
    chord_width: nat,
    theme: Theme,
    i: int,
    n: int,
)
    requires
        0 <= i < n <= rows.len(),
        rows[0].group.len() > 0,
    ensures
        ({
            let all = help_lines(rows, chord_width, theme, n);
            let at = line_count(rows, i + 1) - 1;
            &&& 0 <= at < all.len()
            &&& all[at].spans.len() == 3
            &&& all[at].spans[0].content.len() >= rows[i].chord.len()
            &&& all[at].spans[0].content.take(rows[i].chord.len() as int) == rows[i].chord
            &&& all[at].spans[2].content == rows[i].action
            &&& i == 0 || rows[i - 1].group != rows[i].group ==> at > 0 && all[at - 1].spans.len()
                == 1 && all[at - 1].spans[0].content == rows[i].group
        }),
    decreases n,
{
    let all = help_lines(rows, chord_width, theme, n);
    let at = line_count(rows, i + 1) - 1;
    lemma_help_lines_len(rows, chord_width, theme, n);
    lemma_help_lines_len(rows, chord_width, theme, n - 1);
    if i < n - 1 {
        law_help_lists_every_key(rows, chord_width, theme, i, n - 1);
        let front = help_lines(rows, chord_width, theme, n - 1);
        assert(all[at] == front[at]);
        if at > 0 {
            assert(all[at - 1] == front[at - 1]);
        }
    } else {
        let chord = rows[i].chord;
        let own = key_line(rows[i], chord_width, theme);
        assert(padded(chord, chord_width).take(chord.len() as int) =~= chord);
        assert(at == all.len() - 1);
        assert(all[at] == own);
        assert(own.spans.len() == 3);
        if i == 0 || rows[i - 1].group != rows[i].group {
            reveal_strlit("");
            assert(opens_group(rows, i));
            assert(all[at - 1] == style::line_of(
                rows[i].group,
                style::fg(theme.dim).plus(Modifier::Bold),
            ));
            assert(all[at - 1].spans.len() == 1);
        }
    }
}

/// The help shows a window of its lines, as many as fit, from the scroll position
/// on and no further down than the last page.
pub proof fn law_help_window(scroll: usize, body: Rect, theme: Theme, k: int)
    requires
        0 <= k < help_window(scroll, body, theme).len(),
    ensures
        ({
            let all = help_lines(hotkeys(), chord_column(), theme, hotkeys().len() as int);
            let shown = help_window(scroll, body, theme);
            let from = help_offset(scroll, body);
            &&& shown.len() <= body.height
            &&& 0 <= from <= scroll
            &&& shown[k] == all[from + k]
            &&& all.len() >= body.height ==> shown.len() == body.height
            &&& all.len() < body.height ==> shown == all
            &&& scroll + body.height <= all.len() ==> from == scroll
        }),
{
    let all = help_lines(hotkeys(), chord_column(), theme, hotkeys().len() as int);
    lemma_help_lines_len(hotkeys(), chord_column(), theme, hotkeys().len() as int);
    if all.len() < body.height {
        assert(help_window(scroll, body, theme) =~= all);
    }
}

} // verus!
