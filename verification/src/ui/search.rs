//! The two search popups: in the active thread, and over all threads.

use vstd::prelude::*;
use crate::app::{Chat, GlobalSearchMatch, GlobalSearchState, SearchMatch, SearchState};
use crate::model::{Message, Role};
use crate::style::{Color, Line, Modifier, Rect, Span, Style};
use crate::theme::Theme;
use crate::ui::layout::block_inner;
use crate::ui::lines::PROMPT_MARKER;
use crate::ui::popups::{center, height_of_popup, scroll_to_tail, width_of_popup, Popup};
use crate::ui::strip::{search_snippet, search_snippet_all};
use crate::ui::{layout, popups, strip};
use crate::width::str_width_u16;
use crate::{style, text, width};

verus! {

/// The decision hint of the search popups.
pub const SEARCH_HINT: &'static str =
    "\u{2191}\u{2193} navigate \u{00b7} Enter jump \u{00b7} Esc close \u{00b7} Ctrl+C quit";

/// Rows of the list of matches.
pub const MAX_LIST_ROWS: usize = 7;

/// The first match on screen: the selected one stays near the middle.
pub open spec fn window_start(selected: usize, count: int) -> int {
    let wanted = layout::less(selected as int, 3);
    let most = layout::less(count, MAX_LIST_ROWS as int);
    if wanted < most {
        wanted
    } else {
        most
    }
}

/// One past the last match on screen.
pub open spec fn window_end(selected: usize, count: int) -> int {
    if window_start(selected, count) + MAX_LIST_ROWS < count {
        window_start(selected, count) + MAX_LIST_ROWS
    } else {
        count
    }
}

/// The selected match is always on screen.
pub proof fn law_selection_shows(selected: usize, count: int)
    requires
        selected < count,
    ensures
        window_start(selected, count) <= selected < window_end(selected, count),
{
}

/// Who wrote the message of a match; `None` where the message is gone.
pub open spec fn role_at(messages: Seq<Message>, index: usize) -> Option<Role> {
    if index < messages.len() {
        Some(messages[index as int].role)
    } else {
        None
    }
}

/// The name of a message's author.
pub open spec fn role_label(role: Option<Role>) -> Seq<char> {
    match role {
        Some(Role::User) => "You"@,
        Some(Role::Assistant) => "Chibi"@,
        None => "?"@,
    }
}

/// The color of a message's author.
pub open spec fn role_color(role: Option<Role>, theme: Theme) -> Color {
    match role {
        Some(Role::User) => theme.orange,
        Some(Role::Assistant) => theme.blue,
        None => theme.dim,
    }
}

/// The style that the spans of a row start from.
pub open spec fn row_style(selected: bool, theme: Theme) -> Style {
    if selected {
        style::bg(theme.selection)
    } else {
        style::plain()
    }
}

/// One row of the list: a marker, the thread where matches come from several,
/// the author and the snippet.
pub open spec fn match_row(
    selected: bool,
    thread: Option<Seq<char>>,
    role: Option<Role>,
    snippet: Seq<char>,
    theme: Theme,
) -> style::LineView {
    let base = row_style(selected, theme);
    let marker = style::span(
        if selected {
            "\u{25b8} "@
        } else {
            "  "@
        },
        base.with_fg(theme.yellow),
    );
    let author = style::span(
        role_label(role) + " \u{00b7} "@,
        base.with_fg(role_color(role, theme)).plus(Modifier::Bold),
    );
    let shown = style::span(snippet, base.with_fg(theme.fg));
    style::line(
        match thread {
            Some(t) => seq![
                marker,
                style::span(
                    text::replaced(t, '\n', ' ') + " \u{00b7} "@,
                    base.with_fg(theme.fg).plus(Modifier::Bold),
                ),
                author,
                shown,
            ],
            None => seq![marker, author, shown],
        },
    )
}

fn match_line(
    selected: bool,
    thread: Option<&str>,
    role: Option<Role>,
    snippet: String,
    theme: &Theme,
) -> (r: Line)
    ensures
        r@ == match_row(selected, text::optional_str(thread), role, snippet@, *theme),
{
    broadcast use style::span_views_push;

    let base = if selected {
        Style::new().bg(theme.selection)
    } else {
        Style::new()
    };
    let marker = if selected {
        "\u{25b8} "
    } else {
        "  "
    };
    let (label, color) = match role {
        Some(Role::User) => ("You", theme.orange),
        Some(Role::Assistant) => ("Chibi", theme.blue),
        None => ("?", theme.dim),
    };
    let ghost goal = match_row(selected, text::optional_str(thread), role, snippet@, *theme);
    let mut spans: Vec<Span> = Vec::new();
    spans.push(Span::styled(text::owned(marker), base.fg(theme.yellow)));
    match thread {
        Some(t) => {
            let title = text::replace_char(t, '\n', ' ');
            spans.push(
                Span::styled(
                    text::concat(title.as_str(), " \u{00b7} "),
                    base.fg(theme.fg).add_modifier(Modifier::Bold),
                ),
            );
        },
        None => {},
    }
    spans.push(
        Span::styled(
            text::concat(label, " \u{00b7} "),
            base.fg(color).add_modifier(Modifier::Bold),
        ),
    );
    spans.push(Span::styled(snippet, base.fg(theme.fg)));
    assert(style::span_views(spans@) =~= goal.spans);
    Line::from_spans(spans)
}

/// The row of the query: what was typed, or a placeholder.
pub open spec fn query_row(query: Seq<char>, placeholder: Seq<char>, theme: Theme) -> style::LineView {
    style::line(
        seq![
            style::span(PROMPT_MARKER@, style::fg(theme.cyan)),
            if query.len() == 0 {
                style::span(placeholder, style::fg(theme.dim))
            } else {
                style::span(query, style::fg(theme.fg))
            },
        ],
    )
}

fn query_line(query: &str, placeholder: &str, theme: &Theme) -> (r: Line)
    ensures
        r@ == query_row(query@, placeholder@, *theme),
{
    broadcast use style::span_views_push;

    let mut spans: Vec<Span> = Vec::new();
    spans.push(Span::styled(text::owned(PROMPT_MARKER), Style::new().fg(theme.cyan)));
    if query.is_empty() {
        spans.push(Span::styled(text::owned(placeholder), Style::new().fg(theme.dim)));
    } else {
        spans.push(Span::styled(text::owned(query), Style::new().fg(theme.fg)));
    }
    assert(style::span_views(spans@) =~= query_row(query@, placeholder@, *theme).spans);
    Line::from_spans(spans)
}

/// The rows of a search popup: the query, the matches on screen or a note that
/// there are none, and the hint.
pub open spec fn search_lines(
    query: Seq<char>,
    placeholder: Seq<char>,
    matches: Seq<style::LineView>,
    theme: Theme,
) -> Seq<style::LineView> {
    let note = if matches.len() == 0 && query.len() > 0 {
        seq![style::line_of("no matches"@, style::fg(theme.dim))]
    } else {
        seq![]
    };
    (seq![query_row(query, placeholder, theme)] + note + matches).push(
        style::line_of(SEARCH_HINT@, style::fg(theme.yellow)),
    )
}

/// The rows that the list wants: one where nothing matches.
pub open spec fn list_rows(count: int) -> int {
    if count == 0 {
        1
    } else if count < MAX_LIST_ROWS {
        count
    } else {
        MAX_LIST_ROWS as int
    }
}

/// The columns that a search popup wants.
pub open spec fn search_need(floor: int) -> int {
    popups::greater((width::columns(SEARCH_HINT@) % 65536) as int + 12, floor)
}

/// Whether `popup` shows `lines` under `title` in a search popup for `count`
/// matches.
pub open spec fn shows_search(
    popup: Popup,
    frame: Rect,
    floor: int,
    count: int,
    title: Seq<char>,
    lines: Seq<style::LineView>,
    theme: Theme,
) -> bool {
    &&& popup.area == popups::centered(
        frame,
        popups::popup_width(frame.width, search_need(floor)),
        popups::popup_height(frame.height, list_rows(count) + 4),
    )
    &&& popup.inner == layout::inner_area(popup.area, 1)
    &&& popup.title@ == style::line_of(title, style::fg(theme.blue).plus(Modifier::Bold))
    &&& popup.border == theme.blue
    &&& popup.background == theme.bg
    &&& !popup.rounded
    &&& style::line_views(popup.lines@) == lines
    &&& popup.scroll as int == popups::tail_scroll(lines.len() as int, popup.inner)
}

fn search_popup(
    frame: Rect,
    floor: u32,
    title: String,
    query: &str,
    placeholder: &str,
    matches: Vec<Line>,
    count: usize,
    theme: &Theme,
) -> (r: Popup)
    requires
        frame.fits(),
        matches@.len() == 0 <==> count == 0,
    ensures
        shows_search(
            r,
            frame,
            floor as int,
            count as int,
            title@,
            search_lines(query@, placeholder@, style::line_views(matches@), *theme),
            *theme,
        ),
{
    broadcast use {style::line_views_push, style::line_views_add};

    let base: u32 = str_width_u16(SEARCH_HINT) as u32 + 12;
    let wanted: u32 = if base > floor {
        base
    } else {
        floor
    };
    let list: u16 = if count == 0 {
        1
    } else if count < MAX_LIST_ROWS {
        count as u16
    } else {
        MAX_LIST_ROWS as u16
    };
    let area = center(
        frame,
        width_of_popup(frame.width, wanted),
        height_of_popup(frame.height, list + 4),
    );
    let inner = block_inner(area, 1);
    let ghost found = style::line_views(matches@);
    let ghost goal = search_lines(query@, placeholder@, found, *theme);
    let mut rows: Vec<Line> = Vec::new();
    rows.push(query_line(query, placeholder, theme));
    if count == 0 && !query.is_empty() {
        rows.push(Line::styled(text::owned("no matches"), Style::new().fg(theme.dim)));
    }
    let mut list_lines = matches;
    assert(style::line_views(rows@ + list_lines@) == style::line_views(rows@) + found);
    rows.append(&mut list_lines);
    rows.push(Line::styled(text::owned(SEARCH_HINT), Style::new().fg(theme.yellow)));
    assert(style::line_views(rows@) =~= goal);
    assert(style::line_views(rows@).len() == rows@.len());
    let scroll = scroll_to_tail(rows.len(), inner);
    Popup {
        area,
        inner,
        title: Line::styled(title, Style::new().fg(theme.blue).add_modifier(Modifier::Bold)),
        border: theme.blue,
        rounded: false,
        background: theme.bg,
        lines: rows,
        scroll,
    }
}

/// Whether a hit lies near enough to its line for a snippet.
pub open spec fn near(line_text: String, col: usize) -> bool {
    strip::snippet_start(col) <= line_text@.len()
}

/// The rows of the matches on screen, in the active thread.
pub open spec fn thread_matches(state: SearchState, messages: Seq<Message>, theme: Theme) -> Seq<
    style::LineView,
> {
    let count = state.matches@.len() as int;
    let start = window_start(state.selected, count);
    Seq::new(
        (window_end(state.selected, count) - start) as nat,
        |k: int|
            {
                let m = state.matches@[start + k];
                match_row(
                    start + k == state.selected,
                    None,
                    role_at(messages, m.message_index),
                    strip::snippet(m.line_text@, m.col, state.query@),
                    theme,
                )
            },
    )
}

/// The matches on screen: the first, and one past the last.
pub fn window_of(selected: usize, count: usize) -> (r: (usize, usize))
    ensures
        r.0 == window_start(selected, count as int),
        r.1 == window_end(selected, count as int),
        r.0 <= r.1 <= count,
        count > 0 ==> r.0 < r.1,
{
    let wanted: usize = selected.saturating_sub(3);
    let most: usize = count.saturating_sub(MAX_LIST_ROWS);
    let start: usize = if wanted < most {
        wanted
    } else {
        most
    };
    let end: usize = if count - start > MAX_LIST_ROWS {
        start + MAX_LIST_ROWS
    } else {
        count
    };
    (start, end)
}

/// The popup that searches the active thread, whose messages are `messages`.
pub fn render_search_popup(
    state: &SearchState,
    messages: &Vec<Message>,
    frame: Rect,
    theme: &Theme,
) -> (r: Popup)
    requires
        frame.fits(),
        forall|i: int|
            window_start(state.selected, state.matches@.len() as int) <= i < window_end(
                state.selected,
                state.matches@.len() as int,
            ) ==> near((#[trigger] state.matches@[i]).line_text, state.matches@[i].col),
    ensures
        shows_search(
            r,
            frame,
            40,
            state.matches@.len() as int,
            " Find in thread \u{00b7} "@ + text::decimal(state.matches@.len()) + " "@,
            search_lines(
                state.query@,
                "type to search\u{2026}"@,
                thread_matches(*state, messages@, *theme),
                *theme,
            ),
            *theme,
        ),
{
    let count: usize = state.matches.len();
    let (start, end) = window_of(state.selected, count);
    let ghost goal = thread_matches(*state, messages@, *theme);
    let mut lines: Vec<Line> = Vec::new();
    let mut i: usize = start;
    assert(style::line_views(lines@) =~= goal.take(0));
    while i < end
        invariant
            start == window_start(state.selected, state.matches@.len() as int),
            end == window_end(state.selected, state.matches@.len() as int),
            start <= i <= end <= state.matches@.len(),
            goal == thread_matches(*state, messages@, *theme),
            forall|i: int|
                start <= i < end ==> near(
                    (#[trigger] state.matches@[i]).line_text,
                    state.matches@[i].col,
                ),
            style::line_views(lines@) == goal.take(i - start),
        decreases end - i,
    {
        broadcast use style::line_views_push;

        let m: &SearchMatch = &state.matches[i];
        assert(near(state.matches@[i as int].line_text, state.matches@[i as int].col));
        let role = if m.message_index < messages.len() {
            Some(messages[m.message_index].role)
        } else {
            None
        };
        let snippet = search_snippet(m, state.query.as_str());
        lines.push(match_line(i == state.selected, None, role, snippet, theme));
        i += 1;
        assert(goal.take(i - start) =~= goal.take(i - 1 - start).push(goal[i - 1 - start]));
    }
    assert(goal.take(i - start) =~= goal);
    assert(style::line_views(lines@).len() == lines@.len());
    let number = text::decimal_usize(count);
    let title = text::concat3(" Find in thread \u{00b7} ", number.as_str(), " ");
    search_popup(
        frame,
        40,
        title,
        state.query.as_str(),
        "type to search\u{2026}",
        lines,
        count,
        theme,
    )
}

/// Who wrote the message of a match in any thread.
pub open spec fn role_in(chats: Seq<Chat>, chat_index: usize, message_index: usize) -> Option<Role> {
    if chat_index < chats.len() {
        role_at(chats[chat_index as int].messages@, message_index)
    } else {
        None
    }
}

/// The rows of the matches on screen, over all threads. Each names its own
/// thread.
pub open spec fn global_matches(state: GlobalSearchState, chats: Seq<Chat>, theme: Theme) -> Seq<
    style::LineView,
> {
    let count = state.matches@.len() as int;
    let start = window_start(state.selected, count);
    Seq::new(
        (window_end(state.selected, count) - start) as nat,
        |k: int|
            {
                let m = state.matches@[start + k];
                match_row(
                    start + k == state.selected,
                    Some(m.chat_title@),
                    role_in(chats, m.chat_index, m.message_index),
                    strip::snippet(m.line_text@, m.col, state.query@),
                    theme,
                )
            },
    )
}

/// The title of the popup over all threads.
pub open spec fn global_title(count: nat, threads: nat) -> Seq<char> {
    " Search all threads \u{00b7} "@ + text::decimal(count) + (" ("@ + text::decimal(threads) + (
    if threads == 1 {
        " thread) "@
    } else {
        " threads) "@
    }))
}

/// The popup that searches all threads.
pub fn render_search_all_popup(
    state: &GlobalSearchState,
    chats: &Vec<Chat>,
    frame: Rect,
    theme: &Theme,
) -> (r: Popup)
    requires
        frame.fits(),
        forall|i: int|
            window_start(state.selected, state.matches@.len() as int) <= i < window_end(
                state.selected,
                state.matches@.len() as int,
            ) ==> near((#[trigger] state.matches@[i]).line_text, state.matches@[i].col),
    ensures
        shows_search(
            r,
            frame,
            56,
            state.matches@.len() as int,
            global_title(state.matches@.len(), chats@.len()),
            search_lines(
                state.query@,
                "type to search all threads\u{2026}"@,
                global_matches(*state, chats@, *theme),
                *theme,
            ),
            *theme,
        ),
{
    let count: usize = state.matches.len();
    let (start, end) = window_of(state.selected, count);
    let ghost goal = global_matches(*state, chats@, *theme);
    let mut lines: Vec<Line> = Vec::new();
    let mut i: usize = start;
    assert(style::line_views(lines@) =~= goal.take(0));
    while i < end
        invariant
            start == window_start(state.selected, state.matches@.len() as int),
            end == window_end(state.selected, state.matches@.len() as int),
            start <= i <= end <= state.matches@.len(),
            goal == global_matches(*state, chats@, *theme),
            forall|i: int|
                start <= i < end ==> near(
                    (#[trigger] state.matches@[i]).line_text,
                    state.matches@[i].col,
                ),
            style::line_views(lines@) == goal.take(i - start),
        decreases end - i,
    {
        broadcast use style::line_views_push;

        let m: &GlobalSearchMatch = &state.matches[i];
        assert(near(state.matches@[i as int].line_text, state.matches@[i as int].col));
        let role = if m.chat_index < chats.len() {
            let chat = &chats[m.chat_index];
            if m.message_index < chat.messages.len() {
                Some(chat.messages[m.message_index].role)
            } else {
                None
            }
        } else {
            None
        };
        let snippet = search_snippet_all(m, state.query.as_str());
        lines.push(
            match_line(
                i == state.selected,
                Some(m.chat_title.as_str()),
                role,
                snippet,
                theme,
            ),
        );
        i += 1;
        assert(goal.take(i - start) =~= goal.take(i - 1 - start).push(goal[i - 1 - start]));
    }
    assert(goal.take(i - start) =~= goal);
    assert(style::line_views(lines@).len() == lines@.len());
    let number = text::decimal_usize(count);
    let threads = text::decimal_usize(chats.len());
    let tail = text::concat3(
        " (",
        threads.as_str(),
        if chats.len() == 1 {
            " thread) "
        } else {
            " threads) "
        },
    );
    let title = text::concat3(" Search all threads \u{00b7} ", number.as_str(), tail.as_str());
    search_popup(
        frame,
        56,
        title,
        state.query.as_str(),
        "type to search all threads\u{2026}",
        lines,
        count,
        theme,
    )
}

/// The list shows up to seven matches in a row, all of them where they are no
/// more; three stand above the selected one where the ends of the list allow it.
pub proof fn law_window_of_matches(selected: usize, count: int)
    requires
        selected < count,
    ensures
        ({
            let from = window_start(selected, count);
            let to = window_end(selected, count);
            &&& 0 <= from <= selected < to <= count
            &&& count <= 7 ==> from == 0 && to == count
            &&& count > 7 ==> to - from == 7
            &&& count > 7 && 3 <= selected <= count - 4 ==> from == selected - 3
            &&& selected < 3 ==> from == 0
        }),
{
}

/// A match reads as its marker, its thread where it is told, who spoke, and the
/// words around the hit.
pub proof fn law_match_row_reads(
    selected: bool,
    thread: Option<Seq<char>>,
    role: Option<Role>,
    snippet: Seq<char>,
    theme: Theme,
)
    ensures
        ({
            let row = match_row(selected, thread, role, snippet, theme);
            let mark = if selected {
                seq!['\u{25b8}', ' ']
            } else {
                seq![' ', ' ']
            };
            let who = (match role {
                Some(Role::User) => "You"@,
                Some(Role::Assistant) => "Chibi"@,
                None => "?"@,
            }) + " \u{00b7} "@;
            &&& thread is None ==> row.text() == mark + who + snippet
            &&& thread matches Some(t) ==> row.text() == mark + (Seq::new(
                t.len(),
                |i: int|
                    if t[i] == '\n' {
                        ' '
                    } else {
                        t[i]
                    },
            ) + " \u{00b7} "@) + who + snippet
            &&& forall|i: int|
                0 <= i < row.spans.len() ==> (#[trigger] row.spans[i]).style.bg == (if selected {
                    Some(theme.selection)
                } else {
                    None
                })
        }),
{
    reveal_strlit("\u{25b8} ");
    reveal_strlit("  ");
    reveal_with_fuel(style::spans_text, 5);
    let row = match_row(selected, thread, role, snippet, theme);
    assert("\u{25b8} "@ =~= seq!['\u{25b8}', ' ']);
    assert("  "@ =~= seq![' ', ' ']);
    let s = row.spans;
    assert(Seq::<char>::empty() + s[0].content =~= s[0].content);
    match thread {
        Some(t) => {
            let flat = Seq::new(
                t.len(),
                |i: int|
                    if t[i] == '\n' {
                        ' '
                    } else {
                        t[i]
                    },
            );
            assert(text::replaced(t, '\n', ' ') =~= flat);
            assert(s.drop_last().drop_last().drop_last().drop_last() =~= Seq::empty());
        },
        None => {
            assert(s.drop_last().drop_last().drop_last() =~= Seq::empty());
        },
    }
}

/// Each row of the list shows its own match, in order, and the selected one alone
/// is marked.
pub proof fn law_rows_show_their_matches(
    state: SearchState,
    messages: Seq<Message>,
    theme: Theme,
    k: int,
)
    requires
        state.selected < state.matches@.len(),
        0 <= k < thread_matches(state, messages, theme).len(),
    ensures
        ({
            let count = state.matches@.len() as int;
            let at = window_start(state.selected, count) + k;
            let m = state.matches@[at];
            &&& thread_matches(state, messages, theme).len() == window_end(state.selected, count)
                - window_start(state.selected, count)
            &&& 0 <= at < count
            &&& thread_matches(state, messages, theme)[k] == match_row(
                at == state.selected,
                None,
                if m.message_index < messages.len() {
                    Some(messages[m.message_index as int].role)
                } else {
                    None
                },
                strip::snippet(m.line_text@, m.col, state.query@),
                theme,
            )
        }),
{
}

/// The same holds of a search through all threads, where each row names its
/// thread too.
pub proof fn law_rows_show_their_matches_everywhere(
    state: GlobalSearchState,
    chats: Seq<Chat>,
    theme: Theme,
    k: int,
)
    requires
        state.selected < state.matches@.len(),
        0 <= k < global_matches(state, chats, theme).len(),
    ensures
        ({
            let count = state.matches@.len() as int;
            let at = window_start(state.selected, count) + k;
            let m = state.matches@[at];
            &&& 0 <= at < count
            &&& global_matches(state, chats, theme)[k] == match_row(
                at == state.selected,
                Some(m.chat_title@),
                if m.chat_index < chats.len() && m.message_index
                    < chats[m.chat_index as int].messages@.len() {
                    Some(chats[m.chat_index as int].messages@[m.message_index as int].role)
                } else {
                    None
                },
                strip::snippet(m.line_text@, m.col, state.query@),
                theme,
            )
        }),
{
}

/// A search shows its query, its matches and its hint, and says so where a query
/// has no match.
pub proof fn law_search_lines(
    query: Seq<char>,
    placeholder: Seq<char>,
    matches: Seq<style::LineView>,
    theme: Theme,
)
    ensures
        ({
            let all = search_lines(query, placeholder, matches, theme);
            &&& matches.len() > 0 ==> all.len() == matches.len() + 2 && all.subrange(
                1,
                all.len() - 1,
            ) == matches
            &&& matches.len() == 0 && query.len() > 0 ==> all.len() == 3 && all[1].spans[0].content
                == "no matches"@
            &&& matches.len() == 0 && query.len() == 0 ==> all.len() == 2
            &&& all[0].spans[1].content == (if query.len() == 0 {
                placeholder
            } else {
                query
            })
            &&& all.last().spans[0].content == SEARCH_HINT@
        }),
{
    let all = search_lines(query, placeholder, matches, theme);
    if matches.len() > 0 {
        assert(all.subrange(1, all.len() - 1) =~= matches);
    }
}

/// The title of a search through all threads counts its hits and its threads.
pub proof fn law_global_title_counts(count: nat, threads: nat)
    ensures
        global_title(count, threads) == " Search all threads \u{00b7} "@ + text::decimal(count) + (
        " ("@ + text::decimal(threads) + (if threads == 1 {
            " thread) "@
        } else {
            " threads) "@
        })),
{
}

/// The list has a row for each match up to seven, and one to say that there is
/// none; the popup has room for the list, the query, the hint and its border.
pub proof fn law_search_popup_has_room(
    popup: Popup,
    frame: Rect,
    floor: int,
    count: int,
    title: Seq<char>,
    lines: Seq<style::LineView>,
    theme: Theme,
)
    requires
        shows_search(popup, frame, floor, count, title, lines, theme),
        frame.height >= 13,
        0 <= count,
    ensures
        popup.area.height == (if count == 0 {
            1
        } else if count <= 7 {
            count
        } else {
            7
        }) + 4,
        style::line_views(popup.lines@) == lines,
        popup.title@.spans[0].content == title,
{
}

/// The search popup shows its query, and on the row of a match the words around
/// its hit.
pub proof fn law_search_popup_shows_its_matches(
    state: &SearchState,
    messages: &Vec<Message>,
    frame: Rect,
    theme: &Theme,
    r: Popup,
    k: int,
)
    requires
        call_ensures(render_search_popup, (state, messages, frame, theme), r),
        state.selected < state.matches@.len(),
        0 <= k < window_end(state.selected, state.matches@.len() as int) - window_start(
            state.selected,
            state.matches@.len() as int,
        ),
    ensures
        ({
            let at = window_start(state.selected, state.matches@.len() as int) + k;
            let m = state.matches@[at];
            &&& k + 1 < r.lines@.len()
            &&& r.lines@[k + 1]@.spans.last().content == strip::snippet(
                m.line_text@,
                m.col,
                state.query@,
            )
            &&& r.lines@[k + 1]@.spans[0].content == (if at == state.selected {
                "\u{25b8} "@
            } else {
                "  "@
            })
            &&& state.query@.len() > 0 ==> r.lines@[0]@.spans[1].content == state.query@
        }),
{
    let rows = thread_matches(*state, messages@, *theme);
    law_rows_show_their_matches(*state, messages@, *theme, k);
    law_search_lines(state.query@, "type to search\u{2026}"@, rows, *theme);
    let all = style::line_views(r.lines@);
    assert(all.len() == r.lines@.len());
    assert(all.subrange(1, all.len() - 1)[k] == rows[k]);
    assert(all[k + 1] == r.lines@[k + 1]@);
    assert(all[0] == r.lines@[0]@);
}

/// The window that the list uses is the one that holds the selected match.
pub proof fn law_window_holds_the_selected(selected: usize, count: usize, r: (usize, usize))
    requires
        call_ensures(window_of, (selected, count), r),
        selected < count,
    ensures
        r.0 <= selected < r.1 <= count,
        r.1 - r.0 <= 7,
        count > 7 ==> r.1 - r.0 == 7,
        count <= 7 ==> r.0 == 0 && r.1 == count,
{
    law_window_of_matches(selected, count as int);
}

} // verus!
