//! Cyrillic chords, the submit key and the quit confirmation.

use chibi_tui::keymap::{cyrillic_latin_counterpart, normalize_cyrillic_ctrl_chord};
use chibi_tui::keys::{
    quit_decision, should_submit, KeyCode, KeyEvent, KeyModifiers, QuitDecision,
};

const NONE: KeyModifiers = KeyModifiers { control: false, shift: false, alt: false, other: false };
const CONTROL: KeyModifiers =
    KeyModifiers { control: true, shift: false, alt: false, other: false };
const SHIFT: KeyModifiers = KeyModifiers { control: false, shift: true, alt: false, other: false };
const ALT: KeyModifiers = KeyModifiers { control: false, shift: false, alt: true, other: false };

fn key_event(code: KeyCode, modifiers: KeyModifiers) -> KeyEvent {
    KeyEvent::new(code, modifiers)
}

#[test]
fn cyrillic_table_maps_the_full_russian_layout_case_preserving() {
    let ru: &[(char, char)] = &[
        ('й', 'q'),
        ('ц', 'w'),
        ('у', 'e'),
        ('к', 'r'),
        ('е', 't'),
        ('н', 'y'),
        ('г', 'u'),
        ('ш', 'i'),
        ('щ', 'o'),
        ('з', 'p'),
        ('ф', 'a'),
        ('ы', 's'),
        ('в', 'd'),
        ('а', 'f'),
        ('п', 'g'),
        ('р', 'h'),
        ('о', 'j'),
        ('л', 'k'),
        ('д', 'l'),
        ('ь', 'm'),
        ('я', 'z'),
        ('ч', 'x'),
        ('с', 'c'),
        ('м', 'v'),
        ('и', 'b'),
        ('т', 'n'),
    ];
    for &(cyr, lat) in ru {
        assert_eq!(cyrillic_latin_counterpart(cyr), Some(lat), "{cyr}");
        let upper = cyr.to_uppercase().next().unwrap_or(cyr);
        assert_eq!(
            cyrillic_latin_counterpart(upper),
            Some(lat.to_ascii_uppercase()),
            "{upper}"
        );
    }
}

#[test]
fn cyrillic_table_covers_the_ukrainian_only_keys() {
    assert_eq!(cyrillic_latin_counterpart('і'), Some('s'));
    assert_eq!(cyrillic_latin_counterpart('І'), Some('S'));
    assert_eq!(cyrillic_latin_counterpart('ї'), Some(']'));
    assert_eq!(cyrillic_latin_counterpart('Ї'), Some(']'));
    assert_eq!(cyrillic_latin_counterpart('є'), Some('\''));
    assert_eq!(cyrillic_latin_counterpart('Є'), Some('\''));
    assert_eq!(cyrillic_latin_counterpart('ґ'), Some('\\'));
    assert_eq!(cyrillic_latin_counterpart('Ґ'), Some('\\'));
}

#[test]
fn cyrillic_normalization_touches_ctrl_chords_only_and_passes_unknown_through() {
    let norm =
        |c: char, mods: KeyModifiers| normalize_cyrillic_ctrl_chord(key_event(KeyCode::Char(c), mods));
    let key = norm('ф', CONTROL);
    assert_eq!(key.code, KeyCode::Char('a'));
    assert!(key.modifiers.control);
    let key = norm('Д', KeyModifiers { shift: true, ..CONTROL });
    assert_eq!(key.code, KeyCode::Char('L'));
    assert!(key.modifiers.shift);
    assert_eq!(norm('λ', CONTROL).code, KeyCode::Char('λ'));
    assert_eq!(norm('q', CONTROL).code, KeyCode::Char('q'));
    assert_eq!(norm('ф', NONE).code, KeyCode::Char('ф'));
    assert_eq!(norm('ф', ALT).code, KeyCode::Char('ф'));
}

#[test]
fn plain_cyrillic_typing_lands_in_the_draft_untouched() {
    let mut draft = String::new();
    for ch in "привет, мир".chars() {
        let key = normalize_cyrillic_ctrl_chord(key_event(KeyCode::Char(ch), NONE));
        if let KeyCode::Char(c) = key.code {
            draft.push(c);
        }
    }
    assert_eq!(draft, "привет, мир");
}

#[test]
fn keys_without_a_character_are_never_rewritten() {
    let key = key_event(KeyCode::Esc, CONTROL);
    assert_eq!(normalize_cyrillic_ctrl_chord(key), key);
}

#[test]
fn should_submit_enter_returns_true() {
    let enter = key_event(KeyCode::Enter, NONE);
    assert!(should_submit(&enter));
}

#[test]
fn should_submit_letter_returns_false() {
    for ch in ['a', 'q', 'j', 'k', 'n', 'x'] {
        let key = key_event(KeyCode::Char(ch), NONE);
        assert!(!should_submit(&key), "should_submit({ch:?}) must be false");
    }
}

#[test]
fn should_submit_ctrl_c_returns_false() {
    let ctrl_c = key_event(KeyCode::Char('c'), CONTROL);
    assert!(!should_submit(&ctrl_c));
}

#[test]
fn should_submit_ctrl_n_returns_false() {
    let ctrl_n = key_event(KeyCode::Char('n'), CONTROL);
    assert!(!should_submit(&ctrl_n));
}

#[test]
fn should_submit_arrow_keys_return_false() {
    for code in [KeyCode::Up, KeyCode::Down, KeyCode::Left, KeyCode::Right] {
        let key = key_event(code, NONE);
        assert!(!should_submit(&key), "should_submit({code:?}) must be false");
    }
}

#[test]
fn should_submit_shift_and_alt_enter_return_false() {
    for mods in [SHIFT, ALT] {
        let key = key_event(KeyCode::Enter, mods);
        assert!(!should_submit(&key), "should_submit(Enter+{mods:?}) must be false");
    }
}

#[test]
fn quit_decision_follows_its_grammar() {
    for key in [
        key_event(KeyCode::Char('y'), NONE),
        key_event(KeyCode::Enter, NONE),
        key_event(KeyCode::Char('c'), CONTROL),
    ] {
        assert_eq!(quit_decision(key), QuitDecision::Confirm);
    }
    for key in [
        key_event(KeyCode::Char('n'), NONE),
        key_event(KeyCode::Char('q'), NONE),
        key_event(KeyCode::Esc, NONE),
    ] {
        assert_eq!(quit_decision(key), QuitDecision::Dismiss);
    }
    for key in [
        key_event(KeyCode::Char('n'), CONTROL),
        key_event(KeyCode::Char('c'), NONE),
        key_event(KeyCode::Down, CONTROL),
        key_event(KeyCode::Char('a'), NONE),
    ] {
        assert_eq!(quit_decision(key), QuitDecision::Swallow);
    }
}
