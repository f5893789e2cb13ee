//! Keys of the model picker and of the search popups.

use chibi_tui::app::{ModelPickerPhase, ModelPickerState};
use chibi_tui::keys::{KeyCode, KeyEvent, KeyModifiers};
use chibi_tui::modal_keys::{picker_key, search_key, PickerStep, SearchStep};
use chibi_tui::model_picker::ModelEntry;

const PLAIN: KeyModifiers = KeyModifiers { control: false, shift: false, alt: false, other: false };
const CONTROL: KeyModifiers = KeyModifiers { control: true, ..PLAIN };

fn ready_picker(count: usize) -> ModelPickerState {
    ModelPickerState {
        phase: ModelPickerPhase::Ready,
        entries: (1..=count)
            .map(|number| ModelEntry {
                number,
                name: format!("model-{number}"),
                provider: None,
                active: false,
            })
            .collect(),
        selected: 0,
    }
}

fn press(state: &mut ModelPickerState, code: KeyCode) -> PickerStep {
    picker_key(state, KeyEvent::new(code, PLAIN), 12)
}

#[test]
fn picker_page_down_jumps_a_full_page_from_the_top() {
    let mut state = ready_picker(104);
    press(&mut state, KeyCode::PageDown);
    assert_eq!(state.selected, 12, "one page of visible rows from the top");
    press(&mut state, KeyCode::PageDown);
    assert_eq!(state.selected, 24, "each press steps one page");
    press(&mut state, KeyCode::PageUp);
    assert_eq!(state.selected, 12, "page up steps back one page");
}

#[test]
fn picker_page_navigation_steps_one_page_from_the_middle() {
    let mut state = ready_picker(104);
    for _ in 0..5 {
        press(&mut state, KeyCode::Down);
    }
    assert_eq!(state.selected, 5, "mid-page starting offset");
    press(&mut state, KeyCode::PageDown);
    assert_eq!(state.selected, 17, "page down from mid-page steps a full page");
    press(&mut state, KeyCode::PageUp);
    assert_eq!(state.selected, 5, "page up returns to the row a page above");
}

#[test]
fn picker_page_down_clamps_at_the_bottom_edge() {
    let mut state = ready_picker(20);
    state.selected = 15;
    press(&mut state, KeyCode::PageDown);
    assert_eq!(state.selected, 19, "clamped to the last row, no wraparound");
    press(&mut state, KeyCode::PageDown);
    assert_eq!(state.selected, 19, "paging past the edge stays clamped");
    press(&mut state, KeyCode::PageUp);
    assert_eq!(state.selected, 7);
    for _ in 0..2 {
        press(&mut state, KeyCode::PageUp);
    }
    assert_eq!(state.selected, 0, "page up clamps at the top edge too");
}

#[test]
fn picker_paging_applies_to_the_filtered_entries_list() {
    let mut state = ready_picker(104);
    state.entries.truncate(15);
    press(&mut state, KeyCode::PageDown);
    assert_eq!(state.selected, 12);
    press(&mut state, KeyCode::PageDown);
    assert_eq!(state.selected, 14, "clamped to the filtered list's last row");
}

#[test]
fn the_picker_enter_is_a_noop_while_the_listing_is_loading() {
    let mut state =
        ModelPickerState { phase: ModelPickerPhase::Loading, entries: Vec::new(), selected: 0 };
    assert_eq!(
        press(&mut state, KeyCode::Enter),
        PickerStep::Stay,
        "nothing to confirm while Loading \u{2014} the popup stays open"
    );
    assert_eq!(state.phase, ModelPickerPhase::Loading);
}

#[test]
fn the_picker_esc_closes_without_staging_anything() {
    let mut state = ready_picker(2);
    assert_eq!(press(&mut state, KeyCode::Esc), PickerStep::Close);
    assert_eq!(state, ready_picker(2));
}

#[test]
fn the_picker_swallows_all_but_its_own_keys() {
    let mut state = ready_picker(3);
    assert_eq!(press(&mut state, KeyCode::Char('x')), PickerStep::Stay);
    for code in [KeyCode::Char('n'), KeyCode::Char('f'), KeyCode::Up, KeyCode::Down] {
        assert_eq!(picker_key(&mut state, KeyEvent::new(code, CONTROL), 12), PickerStep::Stay);
    }
    assert_eq!(state, ready_picker(3));
    press(&mut state, KeyCode::Down);
    press(&mut state, KeyCode::Down);
    press(&mut state, KeyCode::Up);
    assert_eq!(state.selected, 1);
    assert_eq!(press(&mut state, KeyCode::Enter), PickerStep::Choose(2));
}

#[test]
fn search_keys_type_navigate_jump_and_close() {
    let (mut query, mut selected) = (String::new(), 0);
    let mut key = |code: KeyCode, modifiers: KeyModifiers| {
        let step = search_key(&mut query, &mut selected, 2, KeyEvent::new(code, modifiers));
        (step, query.clone(), selected)
    };
    assert_eq!(key(KeyCode::Char('n'), PLAIN), (SearchStep::Retype, "n".into(), 0));
    assert_eq!(key(KeyCode::Char('E'), PLAIN), (SearchStep::Retype, "nE".into(), 0));
    assert_eq!(key(KeyCode::Down, PLAIN), (SearchStep::Stay, "nE".into(), 1));
    assert_eq!(key(KeyCode::Down, PLAIN), (SearchStep::Stay, "nE".into(), 1));
    assert_eq!(key(KeyCode::PageUp, PLAIN), (SearchStep::Stay, "nE".into(), 1));
    assert_eq!(key(KeyCode::Up, CONTROL), (SearchStep::Stay, "nE".into(), 1));
    assert_eq!(key(KeyCode::Char('d'), CONTROL), (SearchStep::Stay, "nE".into(), 1));
    assert_eq!(key(KeyCode::Enter, PLAIN), (SearchStep::Jump, "nE".into(), 1));
    assert_eq!(key(KeyCode::Backspace, PLAIN), (SearchStep::Retype, "n".into(), 0));
    assert_eq!(key(KeyCode::Esc, PLAIN), (SearchStep::Close, "n".into(), 0));
    let mut empty = String::new();
    let step = search_key(&mut empty, &mut 0, 0, KeyEvent::new(KeyCode::Backspace, PLAIN));
    assert_eq!(step, SearchStep::Stay, "nothing to take back");
}
