//! Ctrl-chords under Cyrillic keyboard layouts.

use vstd::prelude::*;
use crate::keys::{KeyCode, KeyEvent};

verus! {

/// The character on the Latin layout of the key that types `c` on the Russian or
/// on the Ukrainian layout. Case is kept; three Ukrainian keys lie on
/// punctuation, which has none.
pub open spec fn latin_twin(c: char) -> Option<char> {
    if c == '\u{0439}' {
        Some('q')
    } else if c == '\u{0419}' {
        Some('Q')
    } else if c == '\u{0446}' {
        Some('w')
    } else if c == '\u{0426}' {
        Some('W')
    } else if c == '\u{0443}' {
        Some('e')
    } else if c == '\u{0423}' {
        Some('E')
    } else if c == '\u{043a}' {
        Some('r')
    } else if c == '\u{041a}' {
        Some('R')
    } else if c == '\u{0435}' {
        Some('t')
    } else if c == '\u{0415}' {
        Some('T')
    } else if c == '\u{043d}' {
        Some('y')
    } else if c == '\u{041d}' {
        Some('Y')
    } else if c == '\u{0433}' {
        Some('u')
    } else if c == '\u{0413}' {
        Some('U')
    } else if c == '\u{0448}' {
        Some('i')
    } else if c == '\u{0428}' {
        Some('I')
    } else if c == '\u{0449}' {
        Some('o')
    } else if c == '\u{0429}' {
        Some('O')
    } else if c == '\u{0437}' {
        Some('p')
    } else if c == '\u{0417}' {
        Some('P')
    } else if c == '\u{0444}' {
        Some('a')
    } else if c == '\u{0424}' {
        Some('A')
    } else if c == '\u{044b}' {
        Some('s')
    } else if c == '\u{042b}' {
        Some('S')
    } else if c == '\u{0432}' {
        Some('d')
    } else if c == '\u{0412}' {
        Some('D')
    } else if c == '\u{0430}' {
        Some('f')
    } else if c == '\u{0410}' {
        Some('F')
    } else if c == '\u{043f}' {
        Some('g')
    } else if c == '\u{041f}' {
        Some('G')
    } else if c == '\u{0440}' {
        Some('h')
    } else if c == '\u{0420}' {
        Some('H')
    } else if c == '\u{043e}' {
        Some('j')
    } else if c == '\u{041e}' {
        Some('J')
    } else if c == '\u{043b}' {
        Some('k')
    } else if c == '\u{041b}' {
        Some('K')
    } else if c == '\u{0434}' {
        Some('l')
    } else if c == '\u{0414}' {
        Some('L')
    } else if c == '\u{044c}' {
        Some('m')
    } else if c == '\u{042c}' {
        Some('M')
    } else if c == '\u{044f}' {
        Some('z')
    } else if c == '\u{042f}' {
        Some('Z')
    } else if c == '\u{0447}' {
        Some('x')
    } else if c == '\u{0427}' {
        Some('X')
    } else if c == '\u{0441}' {
        Some('c')
    } else if c == '\u{0421}' {
        Some('C')
    } else if c == '\u{043c}' {
        Some('v')
    } else if c == '\u{041c}' {
        Some('V')
    } else if c == '\u{0438}' {
        Some('b')
    } else if c == '\u{0418}' {
        Some('B')
    } else if c == '\u{0442}' {
        Some('n')
    } else if c == '\u{0422}' {
        Some('N')
    } else if c == '\u{0456}' {
        Some('s')
    } else if c == '\u{0406}' {
        Some('S')
    } else if c == '\u{0457}' {
        Some(']')
    } else if c == '\u{0407}' {
        Some(']')
    } else if c == '\u{0454}' {
        Some('\'')
    } else if c == '\u{0404}' {
        Some('\'')
    } else if c == '\u{0491}' {
        Some('\\')
    } else if c == '\u{0490}' {
        Some('\\')
    } else {
        None
    }
}

/// The Latin twin of a Cyrillic character, by the position of its key.
pub fn cyrillic_latin_counterpart(c: char) -> (r: Option<char>)
    ensures
        r == latin_twin(c),
{
    match c {
        '\u{0439}' => Some('q'),
        '\u{0419}' => Some('Q'),
        '\u{0446}' => Some('w'),
        '\u{0426}' => Some('W'),
        '\u{0443}' => Some('e'),
        '\u{0423}' => Some('E'),
        '\u{043a}' => Some('r'),
        '\u{041a}' => Some('R'),
        '\u{0435}' => Some('t'),
        '\u{0415}' => Some('T'),
        '\u{043d}' => Some('y'),
        '\u{041d}' => Some('Y'),
        '\u{0433}' => Some('u'),
        '\u{0413}' => Some('U'),
        '\u{0448}' => Some('i'),
        '\u{0428}' => Some('I'),
        '\u{0449}' => Some('o'),
        '\u{0429}' => Some('O'),
        '\u{0437}' => Some('p'),
        '\u{0417}' => Some('P'),
        '\u{0444}' => Some('a'),
        '\u{0424}' => Some('A'),
        '\u{044b}' => Some('s'),
        '\u{042b}' => Some('S'),
        '\u{0432}' => Some('d'),
        '\u{0412}' => Some('D'),
        '\u{0430}' => Some('f'),
        '\u{0410}' => Some('F'),
        '\u{043f}' => Some('g'),
        '\u{041f}' => Some('G'),
        '\u{0440}' => Some('h'),
        '\u{0420}' => Some('H'),
        '\u{043e}' => Some('j'),
        '\u{041e}' => Some('J'),
        '\u{043b}' => Some('k'),
        '\u{041b}' => Some('K'),
        '\u{0434}' => Some('l'),
        '\u{0414}' => Some('L'),
        '\u{044c}' => Some('m'),
        '\u{042c}' => Some('M'),
        '\u{044f}' => Some('z'),
        '\u{042f}' => Some('Z'),
        '\u{0447}' => Some('x'),
        '\u{0427}' => Some('X'),
        '\u{0441}' => Some('c'),
        '\u{0421}' => Some('C'),
        '\u{043c}' => Some('v'),
        '\u{041c}' => Some('V'),
        '\u{0438}' => Some('b'),
        '\u{0418}' => Some('B'),
        '\u{0442}' => Some('n'),
        '\u{0422}' => Some('N'),
        '\u{0456}' => Some('s'),
        '\u{0406}' => Some('S'),
        '\u{0457}' => Some(']'),
        '\u{0407}' => Some(']'),
        '\u{0454}' => Some('\''),
        '\u{0404}' => Some('\''),
        '\u{0491}' => Some('\\'),
        '\u{0490}' => Some('\\'),
        _ => None,
    }
}

/// A key as the chord table knows it: a Cyrillic character with Ctrl becomes its
/// Latin twin; anything else stays as it is.
pub open spec fn normalized(key: KeyEvent) -> KeyEvent {
    match key.code {
        KeyCode::Char(c) => if key.modifiers.control && latin_twin(c) is Some {
            KeyEvent { code: KeyCode::Char(latin_twin(c)->0), ..key }
        } else {
            key
        },
        _ => key,
    }
}

/// Turns a Ctrl-chord on a Cyrillic layout into the Latin one.
pub fn normalize_cyrillic_ctrl_chord(key: KeyEvent) -> (r: KeyEvent)
    ensures
        r == normalized(key),
{
    match key.code {
        KeyCode::Char(c) => if key.modifiers.control {
            match cyrillic_latin_counterpart(c) {
                Some(latin) => KeyEvent::new(KeyCode::Char(latin), key.modifiers),
                None => key,
            }
        } else {
            key
        },
        _ => key,
    }
}

/// Case is kept on the Russian layout: the twin of a small letter is a small
/// letter, and that of its capital the capital; a letter without a twin has a
/// capital without one.
pub proof fn law_case_kept(c: char)
    requires
        '\u{0430}' <= c <= '\u{044f}',
    ensures
        ({
            let capital = (c as u32 - 32) as char;
            match latin_twin(c) {
                Some(l) => 'a' <= l <= 'z' && latin_twin(capital) == Some((l as u32 - 32) as char),
                None => latin_twin(capital) is None,
            }
        }),
{
}

/// Typing is never rewritten: without Ctrl a key stays as it is.
pub proof fn law_typing_untouched(key: KeyEvent)
    requires
        !key.modifiers.control,
    ensures
        normalized(key) == key,
{
}

/// Rewriting twice is rewriting once, and the modifiers stay.
pub proof fn law_normalization_settles(key: KeyEvent)
    ensures
        normalized(normalized(key)) == normalized(key),
        normalized(key).modifiers == key.modifiers,
{
}

/// The letters of the Russian keyboard, row by row.
pub open spec fn russian_rows() -> Seq<char> {
    seq![
        '\u{0439}', '\u{0446}', '\u{0443}', '\u{043a}', '\u{0435}', '\u{043d}', '\u{0433}',
        '\u{0448}', '\u{0449}', '\u{0437}', '\u{0444}', '\u{044b}', '\u{0432}', '\u{0430}',
        '\u{043f}', '\u{0440}', '\u{043e}', '\u{043b}', '\u{0434}', '\u{044f}', '\u{0447}',
        '\u{0441}', '\u{043c}', '\u{0438}', '\u{0442}', '\u{044c}',
    ]
}

/// The letters of the Latin keyboard, row by row.
pub open spec fn latin_rows() -> Seq<char> {
    seq![
        'q', 'w', 'e', 'r', 't', 'y', 'u', 'i', 'o', 'p', 'a', 's', 'd', 'f', 'g', 'h', 'j', 'k',
        'l', 'z', 'x', 'c', 'v', 'b', 'n', 'm',
    ]
}

/// A chord typed in the Russian layout is the one of the same keys in the Latin
/// layout, in small and in capital letters.
pub proof fn law_chords_go_by_the_key(key: KeyEvent, i: int)
    requires
        0 <= i < 26,
        key.modifiers.control,
    ensures
        key.code == KeyCode::Char(russian_rows()[i]) ==> normalized(key) == (KeyEvent {
            code: KeyCode::Char(latin_rows()[i]),
            ..key
        }),
        key.code == KeyCode::Char((russian_rows()[i] as u32 - 32) as char) ==> normalized(key) == (
        KeyEvent { code: KeyCode::Char((latin_rows()[i] as u32 - 32) as char), ..key }),
{
}

/// Chords in Latin letters and keys that are no letters stay as they are.
pub proof fn law_latin_chords_stay(key: KeyEvent)
    requires
        key.code matches KeyCode::Char(c) ==> c < '\u{0400}' || c > '\u{04ff}',
    ensures
        normalized(key) == key,
{
}

/// A chord is changed only in its letter, and only where it is one of the other
/// layout.
pub proof fn law_chord_is_normalized(key: KeyEvent, r: KeyEvent)
    requires
        call_ensures(normalize_cyrillic_ctrl_chord, (key,), r),
    ensures
        r.modifiers == key.modifiers,
        !key.modifiers.control ==> r == key,
        !(key.code is Char) ==> r == key,
        r.code == key.code || (r.code is Char && key.code is Char),
        key.modifiers.control && key.code == KeyCode::Char('\u{0441}') ==> r.code == KeyCode::Char(
            'c',
        ),
{
}

} // verus!
