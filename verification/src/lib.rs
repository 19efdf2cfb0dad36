//! Two small tools, each one short sequence of steps: one lists a directory,
//! one fetches a file over HTTP. This library holds what the two decide and
//! compute; reading directories, talking to servers and writing files is left
//! to the program around it.

pub mod fetcher;
pub mod file_name;
pub mod highlight;
pub mod lister;
pub mod text;
