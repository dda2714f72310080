//! Lazy, read-only traversal of the directory hierarchy of an ISO 9660 image.
//!
//! A directory node lists its children on demand: it reads the sectors of its
//! extent through a shared block reader and decodes the directory records
//! that they hold. Nothing is cached, and nothing is read before it is asked
//! for.

pub mod directory_entry;
pub mod error;
pub mod fileref;
pub mod parse;

pub use crate::directory_entry::isodirectory::ISODirectory;
pub use crate::directory_entry::isofile::ISOFile;
pub use crate::directory_entry::DirectoryEntry;
pub use crate::error::ISOError;
pub use crate::fileref::FileRef;
pub use crate::fileref::ISO9660Reader;
pub use crate::parse::directory_entry::DirectoryEntryHeader;
