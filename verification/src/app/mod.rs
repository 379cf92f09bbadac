//! What the program decides: where the cursors are, what each key does, and
//! what is asked for next.

pub mod controls;
pub mod cursor;
pub mod deeds;
pub mod events;
pub mod filters;
pub mod histories;
pub mod keys;
pub mod list;
pub mod listing;
pub mod lists;
pub mod outlook;
pub mod owners;
pub mod pane;
pub mod program;
pub mod promises;
pub mod reached;
pub mod registries;
pub mod sayings;
pub mod scope;
pub mod screen;
pub mod screens;
pub mod secrets;
pub mod shell;
pub mod sorts;
pub mod state;
pub mod toolbar;
pub mod turns;
pub mod wording;

pub use program::App;
pub use screens::Screen;
