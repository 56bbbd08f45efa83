//! State and decision logic of a terminal torrent download manager: the
//! add dialog, the key and mouse handling of the main screen, the rules of
//! the clipboard and folder pickups, the settings editor, and the texts the
//! screen shows. The terminal, the clipboard, the file system and the
//! torrent engine are driven by the application around this library.

pub mod text;
pub mod paths;
pub mod input;
pub mod config;
pub mod engine;
pub mod modal;
pub mod pickup;
pub mod ui;
pub mod control;
pub mod view;
