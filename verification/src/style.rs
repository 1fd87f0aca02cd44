//! Terminal escape sequences and glyphs used when drawing.
use vstd::prelude::*;

verus! {

pub const RESET: &'static str = "\x1b[0m";

pub const BOLD: &'static str = "\x1b[1m";

pub const DIM: &'static str = "\x1b[2m";

pub const CYAN: &'static str = "\x1b[36m";

pub const GREY: &'static str = "\x1b[90m";

/// The background of the line under the cursor.
pub const BG_SELECT: &'static str = "\x1b[48;5;236m";

/// Marks the line under the cursor.
pub const POINTER: &'static str = "›";

pub const NAV_ARROWS: &'static str = "↑↓";

/// Tree connector before every entry but the last.
pub const TREE_MID: &'static str = "├──";

/// Tree connector before the last entry.
pub const TREE_LAST: &'static str = "└──";

/// Checkbox of a selected file.
pub const CHECK_SELECTED: &'static str = "◉";

/// Checkbox of a file that is not selected.
pub const CHECK_UNSELECTED: &'static str = "○";

/// Arrow used in success details.
pub const ICON_RENAMED: &'static str = "→";

} // verus!
