//! The nodes of the directory tree and the listing of a directory's extent.

pub mod isodirectory;
pub mod isofile;
pub mod sector;

use crate::directory_entry::isodirectory::ISODirectory;
use crate::directory_entry::isofile::ISOFile;
use crate::fileref::FileRef;
use crate::fileref::ISO9660Reader;
use crate::parse::directory_entry::DirectoryEntryHeader;
use crate::parse::directory_entry::DirectoryRecord;
use crate::parse::directory_entry::RecordView;
use vstd::prelude::*;

verus! {

/// A child of a directory: a sub-directory, which can be listed in turn, or a file.
#[derive(Debug)]
#[verifier::reject_recursive_types(T)]
pub enum DirectoryEntry<T: ISO9660Reader> {
    Directory(ISODirectory<T>),
    File(ISOFile<T>),
}

impl<T: ISO9660Reader> Clone for DirectoryEntry<T> {
    /// Another node for the same entry, with a share of the same reader.
    fn clone(&self) -> (other: DirectoryEntry<T>)
        ensures
            other.record() == self.record(),
            other.reader() == self.reader(),
            other is Directory <==> self is Directory,
    {
        match self {
            DirectoryEntry::Directory(directory) => DirectoryEntry::Directory(directory.clone()),
            DirectoryEntry::File(file) => DirectoryEntry::File(file.clone()),
        }
    }
}

impl<T: ISO9660Reader> DirectoryEntry<T> {
    /// The record that this entry was made from.
    pub open spec fn record(&self) -> RecordView {
        match self {
            DirectoryEntry::Directory(directory) => directory.record(),
            DirectoryEntry::File(file) => file.record(),
        }
    }

    /// The handle through which this entry reads.
    pub open spec fn reader(&self) -> FileRef<T> {
        match self {
            DirectoryEntry::Directory(directory) => directory.reader(),
            DirectoryEntry::File(file) => file.reader(),
        }
    }

    /// Whether the variant is the one that the directory flag of the header selects.
    pub open spec fn well_classified(&self) -> bool {
        self is Directory <==> self.record().header.is_directory()
    }

    /// Makes the entry for `record`: a directory where the directory flag of
    /// its header is set, a file otherwise. The entry reads through `file`.
    pub fn classify(record: DirectoryRecord, file: FileRef<T>) -> (entry: DirectoryEntry<T>)
        ensures
            entry.record() == record@,
            entry.reader() == file,
            entry.well_classified(),
    {
        if record.header.is_directory() {
            DirectoryEntry::Directory(ISODirectory::new(record.header, record.identifier, file))
        } else {
            DirectoryEntry::File(ISOFile::new(record.header, record.identifier, file))
        }
    }

    /// The header of the entry's record.
    pub fn header(&self) -> (header: &DirectoryEntryHeader)
        ensures
            *header == self.record().header,
    {
        match self {
            DirectoryEntry::Directory(directory) => directory.header(),
            DirectoryEntry::File(file) => file.header(),
        }
    }

    /// The identifier of the entry.
    pub fn identifier(&self) -> (identifier: &str)
        ensures
            identifier@ == self.record().identifier,
    {
        match self {
            DirectoryEntry::Directory(directory) => directory.identifier(),
            DirectoryEntry::File(file) => file.identifier(),
        }
    }
}

/// The records of a sequence of entries, in the same order.
pub open spec fn records_of<T: ISO9660Reader>(entries: Seq<DirectoryEntry<T>>) -> Seq<RecordView> {
    entries.map_values(|entry: DirectoryEntry<T>| entry.record())
}

} // verus!
