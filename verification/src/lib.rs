//! Formatting of long-style directory listings.
//!
//! Every entry of a directory becomes one line of text: a file-type marker,
//! three permission triads, the size, the names of owner and group, the day
//! and month of the last modification and the file name, each wrapped in
//! terminal colors. The functions here work on plain values; reading the
//! directory and writing the lines is left to the caller.

pub mod calendar;
pub mod decimal;
pub mod identity;
pub mod line;
pub mod listing;
pub mod perm;
pub mod style;
