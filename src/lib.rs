//! Coordinate translation between a text editor (1-based lines, 1-based
//! UTF-16 columns) and an analysis engine (0-based byte offsets), and the
//! payloads the editor receives.
pub mod engine;
pub mod line_index;
pub mod position;
pub mod return_types;
pub mod world;
