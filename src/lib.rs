//! Reconstruction of TCP conversations from decoded packet records.
//!
//! `packet` holds the normalized record of one captured frame, `parser` turns
//! per-field text values into such records, and `sessions` groups a stream of
//! records into sessions keyed by their flow; `text` reads numbers and pieces
//! out of field text.
pub mod packet;
pub mod parser;
pub mod sessions;
pub mod text;
