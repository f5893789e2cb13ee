//! The chat list.

use vstd::prelude::*;
use crate::app::{Chat, Focus};
use crate::model::ChatLifecycle;
use crate::style::{Color, Line, Modifier, Rect, Span, Style};
use crate::theme::Theme;
use crate::ui::layout;
use crate::{style, text};

verus! {

/// The dot of a chat, with the blank behind it.
pub open spec fn dot_glyph(lifecycle: ChatLifecycle, selected: bool) -> Seq<char> {
    match lifecycle {
        ChatLifecycle::Running { .. } => "\u{25cf} "@,
        ChatLifecycle::Awaiting { .. } => "\u{25c6} "@,
        ChatLifecycle::Idle => if selected {
            "\u{25cf} "@
        } else {
            "\u{25cb} "@
        },
    }
}

/// The color of a chat's dot. A busy dot tells its state alone; of an idle one
/// the selection comes first, then an unseen reply, then the focus.
pub open spec fn dot_color(
    lifecycle: ChatLifecycle,
    selected: bool,
    unread: bool,
    focus: Focus,
    theme: Theme,
) -> Color {
    match lifecycle {
        ChatLifecycle::Running { .. } => theme.green,
        ChatLifecycle::Awaiting { .. } => theme.yellow,
        ChatLifecycle::Idle => if selected {
            theme.active_marker
        } else if unread {
            theme.unread_activity
        } else if focus == Focus::Sidebar {
            theme.fg
        } else {
            theme.dot_default
        },
    }
}

/// The style of a chat's name: bright and bold when selected, bold when a reply
/// is unseen.
pub open spec fn name_style(selected: bool, unread: bool, theme: Theme) -> Style {
    if selected {
        style::fg(theme.fg).plus(Modifier::Bold)
    } else if unread {
        style::fg(theme.dim).plus(Modifier::Bold)
    } else {
        style::fg(theme.dim)
    }
}

/// One row of the chat list. A name of several lines takes one row.
pub open spec fn chat_row(chat: Chat, selected: bool, focus: Focus, theme: Theme) -> style::LineView {
    style::line(
        seq![
            style::span(
                dot_glyph(chat.lifecycle, selected),
                style::fg(dot_color(chat.lifecycle, selected, chat.unread, focus, theme)),
            ),
            style::span(
                text::replaced(chat.name@, '\n', ' '),
                name_style(selected, chat.unread, theme),
            ),
        ],
    )
}

/// The rows of the chat list.
pub open spec fn chat_rows(chats: Seq<Chat>, active: usize, focus: Focus, theme: Theme) -> Seq<
    style::LineView,
> {
    Seq::new(chats.len(), |i: int| chat_row(chats[i], i == active, focus, theme))
}

/// The chat list as it is painted.
#[derive(Debug)]
pub struct SidebarSurface {
    pub rows: Vec<Line>,
    pub title: Line,
    /// Color of the border, and of the divider below it.
    pub border: Color,
    /// Whether the border has round corners.
    pub rounded: bool,
    /// The color behind the list and behind the divider.
    pub background: Color,
    /// The highlighted row.
    pub selected: usize,
    /// What the highlight lays over the row.
    pub highlight: Style,
    /// The cells that carry the right border down to the last row of the frame.
    pub divider: Rect,
}

/// The border's color: it lifts while the list holds the keyboard.
pub open spec fn border_color(focus: Focus, theme: Theme) -> Color {
    if focus == Focus::Sidebar {
        theme.blue
    } else {
        theme.selection
    }
}

/// The list's title.
pub open spec fn sidebar_title(focus: Focus, theme: Theme) -> style::LineView {
    style::line_of(
        " Chats "@,
        style::fg(
            if focus == Focus::Sidebar {
                theme.cyan
            } else {
                theme.blue
            },
        ).plus(Modifier::Bold),
    )
}

/// The column below the list's right border.
pub open spec fn divider_area(area: Rect, frame: Rect) -> Rect {
    Rect {
        x: layout::less(area.right_edge(), 1) as u16,
        y: area.bottom_edge() as u16,
        width: 1,
        height: layout::less(frame.bottom_edge(), area.bottom_edge()) as u16,
    }
}

/// Builds the chat list.
pub fn render_sidebar(
    chats: &Vec<Chat>,
    active: usize,
    focus: Focus,
    theme: &Theme,
    area: Rect,
    frame: Rect,
) -> (r: SidebarSurface)
    ensures
        style::line_views(r.rows@) == chat_rows(chats@, active, focus, *theme),
        r.title@ == sidebar_title(focus, *theme),
        r.border == border_color(focus, *theme),
        r.rounded,
        r.background == theme.panel,
        r.selected == active,
        r.highlight == style::bg(theme.selection),
        r.divider == divider_area(area, frame),
{
    let focused = match focus {
        Focus::Sidebar => true,
        Focus::Chat => false,
    };
    let ghost goal = chat_rows(chats@, active, focus, *theme);
    let mut rows: Vec<Line> = Vec::new();
    let mut i: usize = 0;
    assert(style::line_views(rows@) =~= goal.take(0));
    while i < chats.len()
        invariant
            i <= chats@.len(),
            focused <==> focus == Focus::Sidebar,
            goal == chat_rows(chats@, active, focus, *theme),
            style::line_views(rows@) == goal.take(i as int),
        decreases chats@.len() - i,
    {
        broadcast use {style::span_views_push, style::line_views_push};

        let chat = &chats[i];
        let selected = i == active;
        let glyph = match &chat.lifecycle {
            ChatLifecycle::Running { .. } => "\u{25cf} ",
            ChatLifecycle::Awaiting { .. } => "\u{25c6} ",
            ChatLifecycle::Idle => if selected {
                "\u{25cf} "
            } else {
                "\u{25cb} "
            },
        };
        let color = match &chat.lifecycle {
            ChatLifecycle::Running { .. } => theme.green,
            ChatLifecycle::Awaiting { .. } => theme.yellow,
            ChatLifecycle::Idle => if selected {
                theme.active_marker
            } else if chat.unread {
                theme.unread_activity
            } else if focused {
                theme.fg
            } else {
                theme.dot_default
            },
        };
        let name = if selected {
            Style::new().fg(theme.fg).add_modifier(Modifier::Bold)
        } else if chat.unread {
            Style::new().fg(theme.dim).add_modifier(Modifier::Bold)
        } else {
            Style::new().fg(theme.dim)
        };
        let mut spans: Vec<Span> = Vec::new();
        spans.push(Span::styled(text::owned(glyph), Style::new().fg(color)));
        spans.push(Span::styled(text::replace_char(chat.name.as_str(), '\n', ' '), name));
        assert(style::span_views(spans@) =~= goal[i as int].spans);
        rows.push(Line::from_spans(spans));
        i += 1;
        assert(goal.take(i as int) =~= goal.take(i - 1).push(goal[i - 1]));
    }
    assert(goal.take(i as int) =~= goal);
    let title_color = if focused {
        theme.cyan
    } else {
        theme.blue
    };
    SidebarSurface {
        rows,
        title: Line::styled(
            text::owned(" Chats "),
            Style::new().fg(title_color).add_modifier(Modifier::Bold),
        ),
        border: if focused {
            theme.blue
        } else {
            theme.selection
        },
        rounded: true,
        background: theme.panel,
        selected: active,
        highlight: Style::new().bg(theme.selection),
        divider: Rect::new(
            area.right().saturating_sub(1),
            area.bottom(),
            1,
            frame.bottom().saturating_sub(area.bottom()),
        ),
    }
}

/// A busy chat's dot tells its state whatever is selected, unseen or focused.
pub proof fn law_busy_dot(
    lifecycle: ChatLifecycle,
    s1: bool,
    u1: bool,
    f1: Focus,
    s2: bool,
    u2: bool,
    f2: Focus,
    theme: Theme,
)
    requires
        !(lifecycle is Idle),
    ensures
        dot_glyph(lifecycle, s1) == dot_glyph(lifecycle, s2),
        dot_color(lifecycle, s1, u1, f1, theme) == dot_color(lifecycle, s2, u2, f2, theme),
{
}

/// The sign of an unseen reply survives a change of focus.
pub proof fn law_unread_survives_focus(f1: Focus, f2: Focus, theme: Theme)
    ensures
        dot_color(ChatLifecycle::Idle, false, true, f1, theme) == dot_color(
            ChatLifecycle::Idle,
            false,
            true,
            f2,
            theme,
        ),
        dot_color(ChatLifecycle::Idle, false, true, f1, theme) == theme.unread_activity,
{
}

/// The sidebar lists every chat in order under its own name on one line, and
/// marks the active one.
pub proof fn law_sidebar_lists_every_chat(
    chats: Seq<Chat>,
    active: usize,
    focus: Focus,
    theme: Theme,
    i: int,
)
    requires
        0 <= i < chats.len(),
    ensures
        ({
            let row = chat_rows(chats, active, focus, theme)[i];
            let name = chats[i].name@;
            &&& chat_rows(chats, active, focus, theme).len() == chats.len()
            &&& row.spans.len() == 2
            &&& row.spans[1].content.len() == name.len()
            &&& forall|k: int|
                0 <= k < name.len() ==> #[trigger] row.spans[1].content[k] == (if name[k] == '\n' {
                    ' '
                } else {
                    name[k]
                })
            &&& i == active ==> row.spans[1].style.fg == Some(theme.fg)
                && row.spans[1].style.add_modifier.bold
            &&& i != active ==> row.spans[1].style.fg == Some(theme.dim)
                && row.spans[1].style.add_modifier.bold == chats[i].unread
        }),
{
}

/// The dot tells the state of a chat: a full green one works, a yellow diamond
/// waits for the backend; at rest it is full where the chat is the active one,
/// else open, and its color tells an unseen answer.
pub proof fn law_dot_tells_the_state(
    lifecycle: ChatLifecycle,
    selected: bool,
    unread: bool,
    focus: Focus,
    theme: Theme,
)
    ensures
        ({
            let glyph = dot_glyph(lifecycle, selected);
            let color = dot_color(lifecycle, selected, unread, focus, theme);
            &&& lifecycle is Running ==> glyph == seq!['\u{25cf}', ' '] && color == theme.green
            &&& lifecycle is Awaiting ==> glyph == seq!['\u{25c6}', ' '] && color == theme.yellow
            &&& lifecycle is Idle && selected ==> glyph == seq!['\u{25cf}', ' '] && color
                == theme.active_marker
            &&& lifecycle is Idle && !selected ==> glyph == seq!['\u{25cb}', ' ']
            &&& lifecycle is Idle && !selected && unread ==> color == theme.unread_activity
            &&& lifecycle is Idle && !selected && !unread ==> color == (if focus
                == Focus::Sidebar {
                theme.fg
            } else {
                theme.dot_default
            })
        }),
{
    reveal_strlit("\u{25cf} ");
    reveal_strlit("\u{25c6} ");
    reveal_strlit("\u{25cb} ");
    assert("\u{25cf} "@ =~= seq!['\u{25cf}', ' ']);
    assert("\u{25c6} "@ =~= seq!['\u{25c6}', ' ']);
    assert("\u{25cb} "@ =~= seq!['\u{25cb}', ' ']);
}

/// The divider goes on from the sidebar's right border down to the last row.
pub proof fn law_divider_reaches_the_bottom(area: Rect, frame: Rect)
    requires
        area.fits(),
        frame.fits(),
        area.width > 0,
        area.y + area.height <= frame.y + frame.height,
    ensures
        divider_area(area, frame).x == area.x + area.width - 1,
        divider_area(area, frame).y == area.y + area.height,
        divider_area(area, frame).y + divider_area(area, frame).height == frame.y + frame.height,
        divider_area(area, frame).width == 1,
{
}

/// The sidebar shows every chat in order and highlights the active one; its frame
/// is lit where it has the focus.
pub proof fn law_sidebar_surface(
    chats: &Vec<Chat>,
    active: usize,
    focus: Focus,
    theme: &Theme,
    area: Rect,
    frame: Rect,
    r: SidebarSurface,
    i: int,
)
    requires
        call_ensures(render_sidebar, (chats, active, focus, theme, area, frame), r),
        0 <= i < chats@.len(),
    ensures
        r.rows@.len() == chats@.len(),
        r.selected == active,
        r.rows@[i]@.spans[1].content.len() == chats@[i].name@.len(),
        !chats@[i].name@.contains('\n') ==> r.rows@[i]@.spans[1].content == chats@[i].name@,
        focus == Focus::Sidebar ==> r.border == theme.blue,
        focus == Focus::Chat ==> r.border == theme.selection,
        r.title@.spans[0].content == " Chats "@,
{
    let rows = chat_rows(chats@, active, focus, *theme);
    assert(style::line_views(r.rows@).len() == r.rows@.len());
    assert(style::line_views(r.rows@)[i] == r.rows@[i]@);
    law_sidebar_lists_every_chat(chats@, active, focus, *theme, i);
    let name = chats@[i].name@;
    if !name.contains('\n') {
        assert(rows[i].spans[1].content =~= name) by {
            assert forall|k: int| 0 <= k < name.len() implies rows[i].spans[1].content[k]
                == name[k] by {
                assert(name.contains(name[k]));
            }
        }
    }
}

} // verus!
