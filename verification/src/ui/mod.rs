//! Presentation rules that do not depend on the terminal library: which
//! layout a terminal size gets, panel titles and status icons.

pub mod layout;
pub mod theme;
pub mod header;
pub mod help_overlay;
pub mod view;
