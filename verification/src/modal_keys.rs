//! Keys of the model picker and of the search popups. While one of them is open
//! it owns the keyboard; a key that is not its own does nothing.

use vstd::prelude::*;
use crate::app::{ModelPickerPhase, ModelPickerState};
use crate::keys::{KeyCode, KeyEvent};
use crate::mouse::move_down;
use crate::{mouse, text};

verus! {

/// What a key of the picker asks of the program.
#[derive(Clone, Copy, Debug, PartialEq, Eq, Structural)]
pub enum PickerStep {
    Stay,
    Close,
    /// Switch to the model with this number of the listing.
    Choose(usize),
}

/// The selected row after a key, among `count` rows of which a page shows `page`.
/// The ends clamp.
pub open spec fn row_after(selected: usize, count: usize, key: KeyEvent, page: u16) -> usize {
    if key.modifiers.control || key.modifiers.alt {
        selected
    } else {
        match key.code {
            KeyCode::Up => mouse::moved_up(selected, 1),
            KeyCode::Down => mouse::moved_down(selected, 1, count),
            KeyCode::PageUp => mouse::moved_up(selected, page as int),
            KeyCode::PageDown => mouse::moved_down(selected, page as int, count),
            _ => selected,
        }
    }
}

fn move_row(selected: usize, count: usize, key: &KeyEvent, page: u16) -> (r: usize)
    ensures
        r == row_after(selected, count, *key, page),
{
    if key.modifiers.control || key.modifiers.alt {
        return selected;
    }
    match key.code {
        KeyCode::Up => selected.saturating_sub(1),
        KeyCode::Down => move_down(selected, 1, count),
        KeyCode::PageUp => selected.saturating_sub(page as usize),
        KeyCode::PageDown => move_down(selected, page, count),
        _ => selected,
    }
}

/// What a key asks of the picker: Enter chooses once the listing is there.
pub open spec fn picker_step(state: ModelPickerState, key: KeyEvent) -> PickerStep {
    if key.code == KeyCode::Esc {
        PickerStep::Close
    } else if key.code == KeyCode::Enter && state.phase == ModelPickerPhase::Ready
        && state.selected < state.entries@.len() {
        PickerStep::Choose(state.entries@[state.selected as int].number)
    } else {
        PickerStep::Stay
    }
}

/// Handles a key of the picker, whose list shows `page` rows.
pub fn picker_key(state: &mut ModelPickerState, key: KeyEvent, page: u16) -> (r: PickerStep)
    ensures
        r == picker_step(*old(state), key),
        *final(state) == (ModelPickerState {
            selected: row_after(
                old(state).selected,
                old(state).entries@.len() as usize,
                key,
                page,
            ),
            ..*old(state)
        }),
{
    let ready = match state.phase {
        ModelPickerPhase::Ready => true,
        ModelPickerPhase::Loading => false,
    };
    match key.code {
        KeyCode::Esc => PickerStep::Close,
        KeyCode::Enter => if ready && state.selected < state.entries.len() {
            PickerStep::Choose(state.entries[state.selected].number)
        } else {
            PickerStep::Stay
        },
        _ => {
            state.selected = move_row(state.selected, state.entries.len(), &key, page);
            PickerStep::Stay
        },
    }
}

/// What a key of a search popup asks of the program.
#[derive(Clone, Copy, Debug, PartialEq, Eq, Structural)]
pub enum SearchStep {
    Stay,
    Close,
    /// Close and show the selected hit.
    Jump,
    /// The query changed: find its hits.
    Retype,
}

/// The query after a key: plain characters type, Backspace takes the last one
/// back.
pub open spec fn query_after(query: Seq<char>, key: KeyEvent) -> Seq<char> {
    match key.code {
        KeyCode::Backspace => if query.len() > 0 {
            query.drop_last()
        } else {
            query
        },
        KeyCode::Char(c) => if key.modifiers.control || key.modifiers.alt {
            query
        } else {
            query.push(c)
        },
        _ => query,
    }
}

/// What a key asks of a search popup.
pub open spec fn search_step(query: Seq<char>, key: KeyEvent) -> SearchStep {
    if key.code == KeyCode::Esc {
        SearchStep::Close
    } else if key.code == KeyCode::Enter {
        SearchStep::Jump
    } else if query_after(query, key).len() != query.len() {
        SearchStep::Retype
    } else {
        SearchStep::Stay
    }
}

/// Handles a key of a search popup with `count` hits. A changed query selects the
/// first of its hits.
pub fn search_key(query: &mut String, selected: &mut usize, count: usize, key: KeyEvent) -> (r:
    SearchStep)
    ensures
        r == search_step(old(query)@, key),
        final(query)@ == query_after(old(query)@, key),
        *final(selected) == (if r == SearchStep::Retype {
            0
        } else if key.code == KeyCode::PageUp || key.code == KeyCode::PageDown {
            *old(selected)
        } else {
            row_after(*old(selected), count, key, 0)
        }),
{
    match key.code {
        KeyCode::Esc => SearchStep::Close,
        KeyCode::Enter => SearchStep::Jump,
        KeyCode::Backspace => {
            let chars = text::to_chars(query.as_str());
            let len: usize = chars.len();
            if len == 0 {
                return SearchStep::Stay;
            }
            *query = text::from_chars(&chars, 0, len - 1);
            assert(query@ =~= old(query)@.drop_last());
            *selected = 0;
            SearchStep::Retype
        },
        KeyCode::Char(c) => {
            if key.modifiers.control || key.modifiers.alt {
                return SearchStep::Stay;
            }
            query.push(c);
            *selected = 0;
            SearchStep::Retype
        },
        KeyCode::PageUp => SearchStep::Stay,
        KeyCode::PageDown => SearchStep::Stay,
        _ => {
            *selected = move_row(*selected, count, &key, 0);
            SearchStep::Stay
        },
    }
}

/// A key never takes the selection out of the list.
pub proof fn law_row_stays_in_list(selected: usize, count: usize, key: KeyEvent, page: u16)
    requires
        selected < count,
    ensures
        row_after(selected, count, key, page) < count,
{
}

/// The keys of a list move its row up and down by one or by a page, to no row
/// outside; a chord moves nothing.
pub proof fn law_list_keys(selected: usize, count: usize, key: KeyEvent, page: u16)
    requires
        selected < count,
    ensures
        ({
            let at = selected as int;
            let to = row_after(selected, count, key, page) as int;
            let clipped = |n: int|
                if n < 0 {
                    0
                } else if n >= count {
                    count - 1
                } else {
                    n
                };
            let chord = key.modifiers.control || key.modifiers.alt;
            &&& chord ==> to == at
            &&& !chord && key.code == KeyCode::Up ==> to == clipped(at - 1)
            &&& !chord && key.code == KeyCode::Down ==> to == clipped(at + 1)
            &&& !chord && key.code == KeyCode::PageUp ==> to == clipped(at - page)
            &&& !chord && key.code == KeyCode::PageDown ==> to == clipped(at + page)
            &&& key.code is Char || key.code == KeyCode::Enter || key.code == KeyCode::Esc ==> to
                == at
        }),
{
}

/// Enter chooses the model on the selected row, by its number in the listing, once
/// the listing is there; Esc closes the picker; no other key does either.
pub proof fn law_enter_chooses_the_selected_model(state: ModelPickerState, key: KeyEvent)
    ensures
        key.code == KeyCode::Esc <==> picker_step(state, key) == PickerStep::Close,
        key.code == KeyCode::Enter && state.phase == ModelPickerPhase::Ready && state.selected
            < state.entries@.len() ==> picker_step(state, key) == PickerStep::Choose(
            state.entries@[state.selected as int].number,
        ),
        picker_step(state, key) is Choose ==> key.code == KeyCode::Enter && state.phase
            == ModelPickerPhase::Ready && state.selected < state.entries@.len(),
{
}

/// A search field takes letters at its end and gives them back one by one; a
/// chord types nothing.
pub proof fn law_query_types(query: Seq<char>, key: KeyEvent)
    ensures
        key.code matches KeyCode::Char(c) ==> !key.modifiers.control && !key.modifiers.alt
            ==> query_after(query, key) == query.push(c) && search_step(query, key)
            == SearchStep::Retype,
        key.code is Char && (key.modifiers.control || key.modifiers.alt) ==> query_after(
            query,
            key,
        ) == query && search_step(query, key) == SearchStep::Stay,
        key.code == KeyCode::Backspace && query.len() > 0 ==> query_after(query, key)
            == query.take(query.len() - 1) && search_step(query, key) == SearchStep::Retype,
        key.code == KeyCode::Enter ==> search_step(query, key) == SearchStep::Jump && query_after(
            query,
            key,
        ) == query,
        key.code == KeyCode::Esc ==> search_step(query, key) == SearchStep::Close && query_after(
            query,
            key,
        ) == query,
        key.code == KeyCode::Up || key.code == KeyCode::Down ==> search_step(query, key)
            == SearchStep::Stay && query_after(query, key) == query,
{
    if query.len() > 0 {
        assert(query.drop_last() =~= query.take(query.len() - 1));
    }
}

/// A changed query begins at the first of its hits again; the arrows move through
/// them, and nothing but typing changes the query.
pub proof fn law_search_keys(
    query: &mut String,
    selected: &mut usize,
    count: usize,
    key: KeyEvent,
    r: SearchStep,
)
    requires
        call_ensures(search_key, (query, selected, count, key), r),
        *old(selected) < count,
    ensures
        r == SearchStep::Retype ==> *final(selected) == 0,
        r != SearchStep::Retype ==> final(query)@ == old(query)@,
        !key.modifiers.control && !key.modifiers.alt && key.code == KeyCode::Down && *old(selected)
            + 1 < count ==> *final(selected) == *old(selected) + 1,
        !key.modifiers.control && !key.modifiers.alt && key.code == KeyCode::Up && *old(selected)
            > 0 ==> *final(selected) == *old(selected) - 1,
        key.code matches KeyCode::Char(c) ==> !key.modifiers.control && !key.modifiers.alt
            ==> final(query)@ == old(query)@.push(c),
{
}

/// The picker's keys move its row and leave its listing alone.
pub proof fn law_picker_keeps_its_listing(
    state: &mut ModelPickerState,
    key: KeyEvent,
    page: u16,
    r: PickerStep,
)
    requires
        call_ensures(picker_key, (state, key, page), r),
        old(state).selected < old(state).entries@.len() <= usize::MAX,
    ensures
        final(state).entries == old(state).entries,
        final(state).phase == old(state).phase,
        final(state).selected < final(state).entries@.len(),
        key.code == KeyCode::Enter && old(state).phase == ModelPickerPhase::Ready ==> r
            == PickerStep::Choose(old(state).entries@[old(state).selected as int].number),
{
}

} // verus!
