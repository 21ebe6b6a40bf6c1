//! An in-memory model of a directory tree: leaf [`file::File`] values and
//! recursive [`directory::Directory`] containers, with union and difference
//! combinations and equality against other directories or against plain text.

pub mod directory;
pub mod file;
pub mod laws;
