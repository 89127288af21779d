//! Verified core logic of the falling-sand simulation's user interface: the
//! console (argument parsing, command history, completion tries, prompt and
//! help), the particle editor's bookkeeping, the file dialogs, popup toggles,
//! icon tinting and key-binding routing.

pub mod text;
pub mod history;
pub mod categories;
pub mod naming;
pub mod commands;
pub mod keybinds;
pub mod states;
pub mod neighbors;
pub mod editor;
pub mod console;
pub mod prompt;
pub mod file_browser;
pub mod icons;
pub mod help;
