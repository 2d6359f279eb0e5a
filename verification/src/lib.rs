//! Height-constrained ellipsizing of laid-out text.
//!
//! A layout engine wraps a piece of styled text into rows, each carrying the
//! span of the content it covers and its vertical extent. Given those rows
//! and a bounding box, [`ellipsize::ellipsize`] returns the maximal prefix of
//! rows that fits within the box height, joined by line breaks, with one
//! ellipsis appended when the content was cut off.
pub mod content;
pub mod ellipsize;
pub mod layout;
pub mod ui;
