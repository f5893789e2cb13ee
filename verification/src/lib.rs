//! Verified core of a terminal chat client.

pub mod app;
pub mod editor;
pub mod event_loop;
pub mod find;
pub mod frame_text;
pub mod keymap;
pub mod keys;
pub mod live;
pub mod log_keys;
pub mod markdown;
pub mod mock;
pub mod modal_keys;
pub mod model;
pub mod model_picker;
pub mod mouse;
pub mod popup;
pub mod prompts;
pub mod protocol;
pub mod request_pipeline;
pub mod selection;
pub mod setup_screen;
pub mod splash;
pub mod style;
pub mod terminal;
pub mod text;
pub mod theme;
pub mod transcript;
pub mod ui;
pub mod width;
pub mod wrap;
