//! Snapshots of directory trees with dual-mode storage.
//!
//! A snapshot is a [`Dir`] holding [`DirEntry`] children; regular files are
//! [`File`] values whose contents are [`buf::Bytes`]: either buffers owned by
//! the snapshot (live mode, read from disk at the moment of the request) or
//! references into storage that lives as long as the artifact (embedded mode,
//! baked in ahead of time). Both modes present the same shape to callers.
//!
//! The tree itself is produced by [`builder::build`] from a raw listing of the
//! root directory: it decodes and joins paths, sorts every directory's
//! entries, skips entries that are neither directories nor regular files, and
//! aborts on the first undecodable path. Unverified surroundings only gather
//! the raw listing and hand it over as plain values.

pub mod buf;
pub mod builder;
pub mod error;
pub mod laws;
pub mod order;
pub mod raw;
pub mod resolve;
pub mod tree;

pub use buf::Bytes;
pub use buf::Text;
pub use builder::build;
pub use error::BuildError;
pub use raw::RawEntry;
pub use raw::RawNode;
pub use resolve::RootKind;
pub use resolve::check_root;
pub use resolve::resolve_sibling;
pub use resolve::resolve_target;
pub use tree::Dir;
pub use tree::DirEntry;
pub use tree::File;
pub use tree::Metadata;
pub use tree::Timestamp;
