//! Decisions and text handling for a macOS update manager: reading the output
//! of update checks, counting what is outstanding, planning the shell scripts
//! that install updates, and deciding when the background schedule fires.

pub mod text;
pub mod section_map;
pub mod check_output;
pub mod clock;
pub mod schedule;
pub mod scripts;
pub mod upgrade;
pub mod json;
pub mod history;
pub mod release;
pub mod cask_search;
pub mod tray;
