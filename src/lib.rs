//! Archive of accepted competitive-programming submissions: choosing what
//! to archive, where it goes, how page requests are spaced, and how each
//! entry is recorded as a commit.

pub mod archive;
pub mod config;
pub mod language;
pub mod select;
pub mod submission;
pub mod text;
pub mod throttle;
pub mod utils;
