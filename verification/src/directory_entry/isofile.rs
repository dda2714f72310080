//! A file of the image: a leaf of the directory tree.

use crate::fileref::FileRef;
use crate::fileref::ISO9660Reader;
use crate::parse::directory_entry::DirectoryEntryHeader;
use crate::parse::directory_entry::RecordView;
use vstd::prelude::*;

verus! {

/// A file: its record, and a share of the reader through which its data can be had.
#[derive(Debug)]
#[verifier::reject_recursive_types(T)]
pub struct ISOFile<T: ISO9660Reader> {
    pub(crate) header: DirectoryEntryHeader,
    pub identifier: String,
    file: FileRef<T>,
}

impl<T: ISO9660Reader> Clone for ISOFile<T> {
    /// Another node for the same file, with a share of the same reader.
    fn clone(&self) -> (other: ISOFile<T>)
        ensures
            other.record() == self.record(),
            other.reader() == self.reader(),
    {
        ISOFile {
            header: self.header,
            identifier: self.identifier.clone(),
            file: self.file.clone(),
        }
    }
}

impl<T: ISO9660Reader> ISOFile<T> {
    /// The record that this file was made from.
    pub closed spec fn record(&self) -> RecordView {
        RecordView { header: self.header, identifier: self.identifier@ }
    }

    /// The handle through which this file reads.
    pub closed spec fn reader(&self) -> FileRef<T> {
        self.file
    }

    /// A file with the given record, reading through `file`.
    pub fn new(header: DirectoryEntryHeader, identifier: String, file: FileRef<T>) -> (node: ISOFile<
        T,
    >)
        ensures
            node.record() == (RecordView { header, identifier: identifier@ }),
            node.reader() == file,
    {
        ISOFile { header, identifier, file }
    }

    /// The header of the record.
    pub fn header(&self) -> (header: &DirectoryEntryHeader)
        ensures
            *header == self.record().header,
    {
        &self.header
    }

    /// The identifier of the record.
    pub fn identifier(&self) -> (identifier: &str)
        ensures
            identifier@ == self.record().identifier,
    {
        self.identifier.as_str()
    }
}

} // verus!
