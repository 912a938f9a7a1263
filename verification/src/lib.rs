//! An in-memory store of files in a tree of directories, to be embedded by
//! a host that wants files without an operating system under them.
//!
//! A [`tree::Root`] owns named directories ([`tree::Node`]). Every
//! directory owns the [`file::File`] that describes it, the directories
//! below it and its files; directories and files are named apart. A file
//! has metadata, content and, if the host binds one to it, an executable
//! ([`file::executable::ExecutableFunction`]) that is run with a handle to
//! the host. A [`path::Path`] is a string of segments between slashes, and
//! [`tree::Root::get_file`] follows the segments from the root to a file.
//!
//! A miss is no error: a lookup that finds nothing answers `None`. An
//! [`errors::IoError`] says that a file is in no state for what was asked
//! of it, and names the path.
//!
//! The store is owned by one caller at a time. It has no operation that
//! removes or renames an entry: a name is bound, or bound again.
pub mod errors;
pub mod file;
pub mod name_map;
pub mod path;
pub mod tree;
