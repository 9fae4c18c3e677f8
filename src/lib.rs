//! Metadata listing for a file or the entries of a directory: size and mode
//! text, timestamps in local time, and the text layouts of a listing.

pub mod text;
pub mod size;
pub mod mode;
pub mod time;
pub mod info;
pub mod render;
