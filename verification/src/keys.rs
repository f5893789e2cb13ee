//! Key presses, and the decisions that depend on a key alone.

use vstd::prelude::*;

verus! {

/// Which key was pressed.
#[derive(Clone, Copy, Debug, PartialEq, Eq, Structural)]
pub enum KeyCode {
    Enter,
    Esc,
    Tab,
    Backspace,
    Up,
    Down,
    Left,
    Right,
    PageUp,
    PageDown,
    Home,
    End,
    F(u8),
    Char(char),
    Other,
}

/// Which modifiers were held.
#[derive(Clone, Copy, Debug, PartialEq, Eq, Structural)]
pub struct KeyModifiers {
    pub control: bool,
    pub shift: bool,
    pub alt: bool,
    /// Any other modifier.
    pub other: bool,
}

/// A key press.
#[derive(Clone, Copy, Debug, PartialEq, Eq, Structural)]
pub struct KeyEvent {
    pub code: KeyCode,
    pub modifiers: KeyModifiers,
}

impl KeyModifiers {
    /// No modifier at all.
    pub open spec fn bare(self) -> bool {
        !self.control && !self.shift && !self.alt && !self.other
    }

    pub fn is_empty(self) -> (r: bool)
        ensures
            r == self.bare(),
    {
        !self.control && !self.shift && !self.alt && !self.other
    }
}

impl KeyEvent {
    pub fn new(code: KeyCode, modifiers: KeyModifiers) -> (r: KeyEvent)
        ensures
            r == (KeyEvent { code, modifiers }),
    {
        KeyEvent { code, modifiers }
    }

    /// Ctrl+C, whatever else is held.
    pub open spec fn ctrl_c(self) -> bool {
        self.code == KeyCode::Char('c') && self.modifiers.control
    }

    /// Ctrl+C, whatever else is held.
    pub fn is_ctrl_c(self) -> (r: bool)
        ensures
            r == self.ctrl_c(),
    {
        match self.code {
            KeyCode::Char(c) => c == 'c' && self.modifiers.control,
            _ => false,
        }
    }

    pub fn is_enter(self) -> (r: bool)
        ensures
            r == (self.code == KeyCode::Enter),
    {
        match self.code {
            KeyCode::Enter => true,
            _ => false,
        }
    }
}

/// Whether a key submits the draft: Enter, with no modifier. Shift+Enter and
/// Alt+Enter insert a newline instead.
pub fn should_submit(key: &KeyEvent) -> (r: bool)
    ensures
        r == (key.code == KeyCode::Enter && key.modifiers.bare()),
{
    key.is_enter() && key.modifiers.is_empty()
}

/// What a key means while the quit confirmation is open.
#[derive(Clone, Copy, Debug, PartialEq, Eq, Structural)]
pub enum QuitDecision {
    /// `y`, Enter or Ctrl+C: quit.
    Confirm,
    /// `n`, `q` or Esc: stay.
    Dismiss,
    /// Anything else does nothing.
    Swallow,
}

/// The meaning of a key while the quit confirmation is open. The letters count
/// without Ctrl or Alt only.
pub open spec fn quit_meaning(key: KeyEvent) -> QuitDecision {
    let plain = !key.modifiers.control && !key.modifiers.alt;
    match key.code {
        KeyCode::Enter => QuitDecision::Confirm,
        KeyCode::Esc => QuitDecision::Dismiss,
        KeyCode::Char(c) => if key.ctrl_c() {
            QuitDecision::Confirm
        } else if plain && c == 'y' {
            QuitDecision::Confirm
        } else if plain && (c == 'n' || c == 'q') {
            QuitDecision::Dismiss
        } else {
            QuitDecision::Swallow
        },
        _ => QuitDecision::Swallow,
    }
}

/// Decides on a key while the quit confirmation is open.
pub fn quit_decision(key: KeyEvent) -> (r: QuitDecision)
    ensures
        r == quit_meaning(key),
{
    let plain = !key.modifiers.control && !key.modifiers.alt;
    match key.code {
        KeyCode::Enter => QuitDecision::Confirm,
        KeyCode::Esc => QuitDecision::Dismiss,
        KeyCode::Char(c) => if key.is_ctrl_c() {
            QuitDecision::Confirm
        } else if plain && c == 'y' {
            QuitDecision::Confirm
        } else if plain && (c == 'n' || c == 'q') {
            QuitDecision::Dismiss
        } else {
            QuitDecision::Swallow
        },
        _ => QuitDecision::Swallow,
    }
}

/// The quit question is answered with yes by `y`, Enter and Ctrl+C, with no by
/// `n`, `q` and Esc; no other key answers it.
pub proof fn law_quit_answers(key: KeyEvent)
    ensures
        ({
            let plain = !key.modifiers.control && !key.modifiers.alt;
            let yes = key.code == KeyCode::Enter || (plain && key.code == KeyCode::Char('y')) || (
            key.modifiers.control && key.code == KeyCode::Char('c'));
            let no = key.code == KeyCode::Esc || (plain && (key.code == KeyCode::Char('n')
                || key.code == KeyCode::Char('q')));
            &&& yes <==> quit_meaning(key) == QuitDecision::Confirm
            &&& no <==> quit_meaning(key) == QuitDecision::Dismiss
        }),
{
}

} // verus!
