//! Keys of the diagnostics-log viewer. While it is open it owns the keyboard, and
//! while a search pattern is typed the prompt does.

use vstd::prelude::*;
use crate::app::LogViewerState;
use crate::keys::{KeyCode, KeyEvent};
use crate::mouse::move_down;
use crate::{find, mouse, text};

verus! {

/// What a key of the viewer asks of the program.
#[derive(Clone, Copy, Debug, PartialEq, Eq, Structural)]
pub enum ViewerStep {
    Stay,
    Close,
    /// Copy the cursor's line.
    Copy,
}

/// Whether `after` is the viewer `before` after a key at the open prompt, which
/// holds `typed`: Escape leaves it, Enter commits, and only plain characters
/// type.
pub open spec fn prompted(
    before: LogViewerState,
    after: LogViewerState,
    typed: Seq<char>,
    key: KeyEvent,
) -> bool {
    let types = |s: Seq<char>|
        after.search_buf matches Some(buf) && buf@ == s && after == (LogViewerState {
            search_buf: after.search_buf,
            ..before
        });
    match key.code {
        KeyCode::Esc => after == (LogViewerState { search_buf: None, ..before }),
        KeyCode::Enter => find::committed(before, after),
        KeyCode::Backspace => types(
            if typed.len() > 0 {
                typed.drop_last()
            } else {
                typed
            },
        ),
        KeyCode::Char(c) => if key.modifiers.control || key.modifiers.alt {
            after == before
        } else {
            types(typed.push(c))
        },
        _ => after == before,
    }
}

/// The cursor after a key, in a viewer that shows `page` rows.
pub open spec fn cursor_after(state: LogViewerState, key: KeyEvent, page: u16) -> usize {
    let count = state.lines@.len() as usize;
    match key.code {
        KeyCode::Up => mouse::moved_up(state.cursor, 1),
        KeyCode::Char('k') => mouse::moved_up(state.cursor, 1),
        KeyCode::Down => mouse::moved_down(state.cursor, 1, count),
        KeyCode::Char('j') => mouse::moved_down(state.cursor, 1, count),
        KeyCode::PageUp => mouse::moved_up(state.cursor, page as int),
        KeyCode::PageDown => mouse::moved_down(state.cursor, page as int, count),
        KeyCode::Char('g') => 0,
        KeyCode::Char('G') => if count > 0 {
            (count - 1) as usize
        } else {
            0
        },
        _ => state.cursor,
    }
}

/// Whether `after` is the viewer `before` after a key, with no prompt open. A key
/// that is not the viewer's own does nothing.
pub open spec fn navigated(
    before: LogViewerState,
    after: LogViewerState,
    key: KeyEvent,
    page: u16,
) -> bool {
    if key.modifiers.control || key.modifiers.alt {
        after == before
    } else {
        match key.code {
            KeyCode::Char('w') => after == (LogViewerState { wrap: !before.wrap, ..before }),
            KeyCode::Char('/') => after.search_buf matches Some(buf) && buf@.len() == 0 && after
                == (LogViewerState { search_buf: after.search_buf, ..before }),
            KeyCode::Char('n') => find::walked(before, after, true),
            KeyCode::Char('N') => find::walked(before, after, false),
            KeyCode::Char('y') => after.copy_note matches Some(note) && note@ == "copied"@ && after
                == (LogViewerState { copy_note: after.copy_note, ..before }),
            _ => after == (LogViewerState { cursor: cursor_after(before, key, page), ..before }),
        }
    }
}

/// Handles a key of the viewer, which shows `page` rows.
pub fn viewer_key(state: &mut LogViewerState, key: KeyEvent, page: u16) -> (r: ViewerStep)
    requires
        old(state).search_fits(),
        old(state).cursor < usize::MAX,
    ensures
        final(state).search_fits(),
        match old(state).search_buf {
            Some(buf) => r == ViewerStep::Stay && prompted(*old(state), *final(state), buf@, key),
            None => {
                &&& navigated(*old(state), *final(state), key, page)
                &&& r == (if key.modifiers.control || key.modifiers.alt {
                    ViewerStep::Stay
                } else if key.code == KeyCode::Esc {
                    ViewerStep::Close
                } else if key.code == KeyCode::Char('y') {
                    ViewerStep::Copy
                } else {
                    ViewerStep::Stay
                })
            },
        },
{
    let plain = !key.modifiers.control && !key.modifiers.alt;
    match state.search_buf.take() {
        Some(buf) => {
            match key.code {
                KeyCode::Esc => {},
                KeyCode::Enter => {
                    state.search_buf = Some(buf);
                    state.commit_search();
                },
                KeyCode::Backspace => {
                    let chars = text::to_chars(buf.as_str());
                    let len: usize = chars.len();
                    let kept = text::from_chars(&chars, 0, len.saturating_sub(1));
                    proof {
                        if len > 0 {
                            assert(kept@ =~= buf@.drop_last());
                        } else {
                            assert(kept@ =~= buf@);
                        }
                    }
                    state.search_buf = Some(kept);
                },
                KeyCode::Char(c) => {
                    let mut typed = buf;
                    if plain {
                        typed.push(c);
                    }
                    state.search_buf = Some(typed);
                },
                _ => {
                    state.search_buf = Some(buf);
                },
            }
            return ViewerStep::Stay;
        },
        None => {},
    }
    if !plain {
        return ViewerStep::Stay;
    }
    let count: usize = state.lines.len();
    match key.code {
        KeyCode::Esc => {
            return ViewerStep::Close;
        },
        KeyCode::Up => {
            state.cursor = state.cursor.saturating_sub(1);
        },
        KeyCode::Down => {
            state.cursor = move_down(state.cursor, 1, count);
        },
        KeyCode::PageUp => {
            state.cursor = state.cursor.saturating_sub(page as usize);
        },
        KeyCode::PageDown => {
            state.cursor = move_down(state.cursor, page, count);
        },
        KeyCode::Char(c) => {
            if c == 'k' {
                state.cursor = state.cursor.saturating_sub(1);
            } else if c == 'j' {
                state.cursor = move_down(state.cursor, 1, count);
            } else if c == 'g' {
                state.cursor = 0;
            } else if c == 'G' {
                state.cursor = count.saturating_sub(1);
            } else if c == 'w' {
                state.wrap = !state.wrap;
            } else if c == '/' {
                state.search_buf = Some(String::new());
            } else if c == 'n' {
                state.walk_search(true);
            } else if c == 'N' {
                state.walk_search(false);
            } else if c == 'y' {
                state.copy_note = Some(text::owned("copied"));
                return ViewerStep::Copy;
            }
        },
        _ => {},
    }
    ViewerStep::Stay
}

/// Whatever is pressed at the open prompt, the lines, the wrapping and the view
/// stay, and the cursor moves on Enter alone.
pub proof fn law_prompt_keeps_view(
    before: LogViewerState,
    after: LogViewerState,
    typed: Seq<char>,
    key: KeyEvent,
)
    requires
        before.search_buf is Some,
        prompted(before, after, typed, key),
    ensures
        after.lines == before.lines,
        after.wrap == before.wrap,
        after.row_offset == before.row_offset,
        key.code != KeyCode::Enter ==> after.cursor == before.cursor && after.search
            == before.search,
{
}

/// The keys of the log move its cursor: up and down by a line or a page, to the
/// first line and to the last, and never out of the log.
pub proof fn law_log_cursor_keys(state: LogViewerState, key: KeyEvent, page: u16)
    requires
        state.cursor < state.lines@.len() <= usize::MAX,
    ensures
        ({
            let at = state.cursor as int;
            let last = state.lines@.len() - 1;
            let to = cursor_after(state, key, page) as int;
            let clipped = |n: int|
                if n < 0 {
                    0
                } else if n > last {
                    last
                } else {
                    n
                };
            &&& 0 <= to <= last
            &&& key.code == KeyCode::Up || key.code == KeyCode::Char('k') ==> to == clipped(at - 1)
            &&& key.code == KeyCode::Down || key.code == KeyCode::Char('j') ==> to == clipped(
                at + 1,
            )
            &&& key.code == KeyCode::PageUp ==> to == clipped(at - page)
            &&& key.code == KeyCode::PageDown ==> to == clipped(at + page)
            &&& key.code == KeyCode::Char('g') ==> to == 0
            &&& key.code == KeyCode::Char('G') ==> to == last
        }),
{
}

/// The letter keys of the log do what they say and nothing else: `w` switches the
/// wrap, `/` opens an empty prompt, `y` says that it copied, and none of them
/// moves the cursor or changes the lines.
pub proof fn law_log_letters(
    before: LogViewerState,
    after: LogViewerState,
    key: KeyEvent,
    page: u16,
)
    requires
        navigated(before, after, key, page),
    ensures
        after.lines == before.lines,
        key.modifiers.control || key.modifiers.alt ==> after == before,
        !key.modifiers.control && !key.modifiers.alt ==> {
            &&& key.code == KeyCode::Char('w') ==> after.wrap == !before.wrap && after.cursor
                == before.cursor
            &&& key.code == KeyCode::Char('/') ==> (after.search_buf matches Some(b) && b@.len()
                == 0) && after.cursor == before.cursor && after.search == before.search
            &&& key.code == KeyCode::Char('y') ==> (after.copy_note matches Some(b) && b@
                == "copied"@) && after.cursor == before.cursor
            &&& key.code == KeyCode::Up ==> after.wrap == before.wrap && after.cursor
                == mouse::moved_up(before.cursor, 1)
        },
{
}

/// The search prompt takes letters at its end and gives them back one by one; Esc
/// closes it and keeps the search that was.
pub proof fn law_prompt_types(
    before: LogViewerState,
    after: LogViewerState,
    typed: Seq<char>,
    key: KeyEvent,
)
    requires
        prompted(before, after, typed, key),
    ensures
        key.code matches KeyCode::Char(c) ==> !key.modifiers.control && !key.modifiers.alt ==> (
        after.search_buf matches Some(b) && b@ == typed.push(c)),
        key.code == KeyCode::Backspace && typed.len() > 0 ==> (after.search_buf matches Some(b)
            && b@ == typed.take(typed.len() - 1)),
        key.code == KeyCode::Esc ==> after.search_buf is None && after.search == before.search
            && after.cursor == before.cursor,
{
    if typed.len() > 0 {
        assert(typed.drop_last() =~= typed.take(typed.len() - 1));
    }
}

/// Outside its prompt the log closes by Esc, copies by `y` and stays by any other
/// key; in its prompt every key is the prompt's.
pub proof fn law_viewer_keys(state: &mut LogViewerState, key: KeyEvent, page: u16, r: ViewerStep)
    requires
        call_ensures(viewer_key, (state, key, page), r),
    ensures
        old(state).search_buf is Some ==> r == ViewerStep::Stay,
        old(state).search_buf is None && !key.modifiers.control && !key.modifiers.alt ==> (r
            == ViewerStep::Close <==> key.code == KeyCode::Esc) && (r == ViewerStep::Copy
            <==> key.code == KeyCode::Char('y')),
        final(state).lines == old(state).lines,
{
    if old(state).search_buf is Some {
        law_prompt_keeps_view(
            *old(state),
            *final(state),
            old(state).search_buf->0@,
            key,
        );
    }
}

} // verus!
