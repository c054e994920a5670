//! A small password-manager core: an ordered store of service/login/password
//! entries with position-derived ids, a comma-delimited on-disk format with an
//! atomic write-then-rename persistence model, a per-field text editor, table
//! navigation, and the screen-level state machine that ties them together.
//!
//! Everything here is plain data and logic; terminal rendering, the system
//! clipboard, argument parsing and real file handling live outside this crate.

pub mod app;
pub mod codec;
pub mod config;
pub mod editor;
pub mod entry;
pub mod run;
pub mod store;
pub mod text;

pub use app::{App, CurrentScreen, InputMode, ITEM_HEIGHT};
pub use config::{Config, Fields};
pub use editor::{InputField, UserInput};
pub use entry::{Data, Password};
pub use run::{handle_key, Action, KeyInput};
pub use store::StoreFiles;
