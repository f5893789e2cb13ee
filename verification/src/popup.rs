//! Modal error popup state: one slot that overlays the views until dismissed.

use vstd::prelude::*;
use crate::text;

verus! {

/// How to recover from an error, and how to leave.
pub const HINT: &'static str = "R reconnect \u{00b7} Esc dismiss \u{00b7} q/Ctrl+C quit";

/// One shown error: the message; the recovery hint is the same for all.
#[derive(Debug)]
pub struct ErrorPopup {
    /// Human-readable failure description.
    pub message: String,
}

impl ErrorPopup {
    pub fn new(message: &str) -> (r: ErrorPopup)
        ensures
            r.message@ == message@,
    {
        ErrorPopup { message: text::owned(message) }
    }

    /// Static recovery hint rendered under the message.
    pub fn hint() -> (r: &'static str)
        ensures
            r@ == HINT@,
    {
        HINT
    }
}

} // verus!
