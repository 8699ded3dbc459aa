//! Scans a media library laid out as one directory per show and one subdirectory
//! per season, and reports for each show its seasons and their episode counts.
//!
//! The filesystem is read by the caller into the plain listings of `listing`;
//! `scan` turns them into shows, and `render::report` orders the shows and lays
//! out the lines of the report.
use vstd::prelude::*;

pub mod listing;
pub mod text;
pub mod order;
pub mod show;
pub mod scan;
pub mod report;
pub mod render;

verus! {

} // verus!
