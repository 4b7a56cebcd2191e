//! Resolves path specifications to take and to skip into a file set, reads the
//! EXIF capture date of each file and decides which timestamps to apply.
pub mod options;
pub mod args;
pub mod fileset;
pub mod resolver;
pub mod app;
pub mod exif;
