//! What a frame shows: the geometry of the panels, the text of each surface and
//! the order in which the surfaces are painted.

pub mod chat;
pub mod help;
pub mod layout;
pub mod lines;
pub mod log;
pub mod picker;
pub mod popups;
pub mod search;
pub mod sidebar;
pub mod strip;
