//! Package-manager front end logic: parsing of `winget` / `brew` output,
//! failure classification, update-queue decisions and scheduling scripts.

pub mod text;
pub mod table;
pub mod detect;
pub mod op;
pub mod queue;
pub mod package;
pub mod winget;
pub mod brew;
pub mod schedule;
pub mod prefs;
pub mod order;
pub mod headless;
pub mod mutex;
