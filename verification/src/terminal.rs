//! What the program switches on in the terminal, and what it switches off again.

use vstd::prelude::*;
use crate::setup_screen::TargetOs;

verus! {

/// One change of the terminal.
#[derive(Clone, Copy, Debug, PartialEq, Eq, Structural)]
pub enum TerminalStep {
    EnableRawMode,
    EnterAlternateScreen,
    EnableMouseCapture,
    EnableBracketedPaste,
    PushKittyFlags,
    DisableRawMode,
    PopKittyFlags,
    DisableBracketedPaste,
    LeaveAlternateScreen,
    DisableMouseCapture,
    ShowCursor,
}

/// Whether the kitty keyboard protocol is asked for on `os`. The Windows console
/// cannot decode its sequences.
pub fn push_kitty_flags_on(os: TargetOs) -> (r: bool)
    ensures
        r == (os == TargetOs::Unix),
{
    match os {
        TargetOs::Unix => true,
        TargetOs::Windows => false,
    }
}

/// Whether the kitty keyboard protocol is asked for on this machine: what
/// [`push_kitty_flags_on`] says of it.
pub fn push_kitty_flags() -> (r: bool) {
    push_kitty_flags_on(TargetOs::current())
}

/// What has to be undone when the program ends, however it ends.
#[derive(Clone, Copy, Debug, PartialEq, Eq, Structural)]
pub struct TerminalRestore {
    /// Whether the kitty flags were pushed.
    pub pop_kitty_flags: bool,
    /// Whether bracketed paste was switched on.
    pub disable_bracketed_paste: bool,
}

/// The changes at startup.
pub open spec fn entered(kitty_flags: bool, bracketed_paste: bool) -> Seq<TerminalStep> {
    seq![
        TerminalStep::EnableRawMode,
        TerminalStep::EnterAlternateScreen,
        TerminalStep::EnableMouseCapture,
    ] + (if bracketed_paste {
        seq![TerminalStep::EnableBracketedPaste]
    } else {
        seq![]
    }) + (if kitty_flags {
        seq![TerminalStep::PushKittyFlags]
    } else {
        seq![]
    })
}

/// Lists the changes at startup.
pub fn setup_steps(kitty_flags: bool, bracketed_paste: bool) -> (r: Vec<TerminalStep>)
    ensures
        r@ == entered(kitty_flags, bracketed_paste),
{
    let mut steps: Vec<TerminalStep> = Vec::new();
    steps.push(TerminalStep::EnableRawMode);
    steps.push(TerminalStep::EnterAlternateScreen);
    steps.push(TerminalStep::EnableMouseCapture);
    if bracketed_paste {
        steps.push(TerminalStep::EnableBracketedPaste);
    }
    if kitty_flags {
        steps.push(TerminalStep::PushKittyFlags);
    }
    steps
}

impl TerminalRestore {
    pub fn new(pop_kitty_flags: bool, disable_bracketed_paste: bool) -> (r: TerminalRestore)
        ensures
            r == (TerminalRestore { pop_kitty_flags, disable_bracketed_paste }),
    {
        TerminalRestore { pop_kitty_flags, disable_bracketed_paste }
    }

    /// The changes at the end.
    pub open spec fn left(self) -> Seq<TerminalStep> {
        seq![TerminalStep::DisableRawMode] + (if self.pop_kitty_flags {
            seq![TerminalStep::PopKittyFlags]
        } else {
            seq![]
        }) + (if self.disable_bracketed_paste {
            seq![TerminalStep::DisableBracketedPaste]
        } else {
            seq![]
        }) + seq![
            TerminalStep::LeaveAlternateScreen,
            TerminalStep::DisableMouseCapture,
            TerminalStep::ShowCursor,
        ]
    }

    /// Lists the changes at the end.
    pub fn restore_steps(&self) -> (r: Vec<TerminalStep>)
        ensures
            r@ == self.left(),
    {
        let mut steps: Vec<TerminalStep> = Vec::new();
        steps.push(TerminalStep::DisableRawMode);
        if self.pop_kitty_flags {
            steps.push(TerminalStep::PopKittyFlags);
        }
        if self.disable_bracketed_paste {
            steps.push(TerminalStep::DisableBracketedPaste);
        }
        steps.push(TerminalStep::LeaveAlternateScreen);
        steps.push(TerminalStep::DisableMouseCapture);
        steps.push(TerminalStep::ShowCursor);
        steps
    }
}

/// What undoes a change at startup.
pub open spec fn undoes(step: TerminalStep) -> TerminalStep {
    match step {
        TerminalStep::EnableRawMode => TerminalStep::DisableRawMode,
        TerminalStep::EnterAlternateScreen => TerminalStep::LeaveAlternateScreen,
        TerminalStep::EnableMouseCapture => TerminalStep::DisableMouseCapture,
        TerminalStep::EnableBracketedPaste => TerminalStep::DisableBracketedPaste,
        TerminalStep::PushKittyFlags => TerminalStep::PopKittyFlags,
        _ => step,
    }
}

/// The end undoes exactly what the startup did: the kitty flags are popped where
/// they were pushed and nowhere else, and so for every other change.
pub proof fn law_restore_mirrors_setup(kitty_flags: bool, bracketed_paste: bool, step: TerminalStep)
    requires
        step != undoes(step),
    ensures
        ({
            let end = TerminalRestore {
                pop_kitty_flags: kitty_flags,
                disable_bracketed_paste: bracketed_paste,
            };
            entered(kitty_flags, bracketed_paste).contains(step) <==> end.left().contains(
                undoes(step),
            )
        }),
{
    let start = entered(kitty_flags, bracketed_paste);
    let end = TerminalRestore {
        pop_kitty_flags: kitty_flags,
        disable_bracketed_paste: bracketed_paste,
    }.left();
    assert(start[0] == TerminalStep::EnableRawMode);
    assert(start[1] == TerminalStep::EnterAlternateScreen);
    assert(start[2] == TerminalStep::EnableMouseCapture);
    assert(end[0] == TerminalStep::DisableRawMode);
    assert(end[end.len() - 3] == TerminalStep::LeaveAlternateScreen);
    assert(end[end.len() - 2] == TerminalStep::DisableMouseCapture);
    if kitty_flags {
        assert(start[start.len() - 1] == TerminalStep::PushKittyFlags);
        assert(end[1] == TerminalStep::PopKittyFlags);
    }
    if bracketed_paste {
        assert(start[3] == TerminalStep::EnableBracketedPaste);
        assert(end[end.len() - 4] == TerminalStep::DisableBracketedPaste);
    }
}

/// The terminal is set up in the order that it needs, and raw mode is the first
/// thing to go; what was not switched on is not switched off.
pub proof fn law_terminal_order(kitty_flags: bool, bracketed_paste: bool)
    ensures
        ({
            let set = entered(kitty_flags, bracketed_paste);
            &&& set[0] == TerminalStep::EnableRawMode
            &&& set[1] == TerminalStep::EnterAlternateScreen
            &&& set[2] == TerminalStep::EnableMouseCapture
            &&& set.contains(TerminalStep::EnableBracketedPaste) <==> bracketed_paste
            &&& set.contains(TerminalStep::PushKittyFlags) <==> kitty_flags
            &&& kitty_flags ==> set.last() == TerminalStep::PushKittyFlags
        }),
        ({
            let end = (TerminalRestore {
                pop_kitty_flags: kitty_flags,
                disable_bracketed_paste: bracketed_paste,
            }).left();
            &&& end[0] == TerminalStep::DisableRawMode
            &&& end.last() == TerminalStep::ShowCursor
            &&& end[end.len() - 3] == TerminalStep::LeaveAlternateScreen
            &&& end[end.len() - 2] == TerminalStep::DisableMouseCapture
            &&& end.contains(TerminalStep::PopKittyFlags) <==> kitty_flags
            &&& end.contains(TerminalStep::DisableBracketedPaste) <==> bracketed_paste
        }),
{
    let set = entered(kitty_flags, bracketed_paste);
    let end = (TerminalRestore {
        pop_kitty_flags: kitty_flags,
        disable_bracketed_paste: bracketed_paste,
    }).left();
    if bracketed_paste {
        assert(set[3] == TerminalStep::EnableBracketedPaste);
        assert(end[end.len() - 4] == TerminalStep::DisableBracketedPaste);
    }
    if kitty_flags {
        assert(set[set.len() - 1] == TerminalStep::PushKittyFlags);
        assert(end[1] == TerminalStep::PopKittyFlags);
    }
}

} // verus!
