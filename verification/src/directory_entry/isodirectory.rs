//! A directory of the image, and the listing of its children.

use crate::directory_entry::records_of;
use crate::directory_entry::sector::block_len;
use crate::directory_entry::sector::lemma_sentinel_first_sector_is_empty;
use crate::directory_entry::sector::parse_sector;
use crate::directory_entry::sector::sector_count;
use crate::directory_entry::sector::sector_records;
use crate::directory_entry::sector::spec_block_len;
use crate::directory_entry::sector::spec_sector_count;
use crate::directory_entry::sector::views;
use crate::directory_entry::sector::SECTOR_SIZE;
use crate::directory_entry::DirectoryEntry;
use crate::error::ISOError;
use crate::fileref::FileRef;
use crate::fileref::ISO9660Reader;
use crate::parse::directory_entry::reports;
use crate::parse::directory_entry::Defect;
use crate::parse::directory_entry::DirectoryEntryHeader;
use crate::parse::directory_entry::DirectoryRecord;
use crate::parse::directory_entry::RecordView;
use std::io;
use vstd::prelude::*;

verus! {

/// Whether each of `sectors` has the size of a sector.
pub open spec fn whole_sectors(sectors: Seq<Seq<u8>>) -> bool {
    forall|i: int| 0 <= i < sectors.len() ==> (#[trigger] sectors[i]).len() == SECTOR_SIZE
}

/// The records of a directory whose extent has `extent_length` bytes and
/// whose first sectors hold `sectors`: the records of each sector, sector
/// after sector, or the defect of the first sector that has one.
pub open spec fn directory_records(sectors: Seq<Seq<u8>>, extent_length: int) -> Result<
    Seq<RecordView>,
    Defect,
>
    decreases sectors.len(),
{
    if sectors.len() == 0 {
        Ok(Seq::empty())
    } else {
        let last = sectors.len() - 1;
        match directory_records(sectors.drop_last(), extent_length) {
            Err(defect) => Err(defect),
            Ok(before) => match sector_records(
                sectors[last],
                spec_block_len(extent_length, last),
            ) {
                Err(defect) => Err(defect),
                Ok(here) => Ok(before + here),
            },
        }
    }
}

/// A sector whose first record has length zero adds no entry to the listing
/// and raises no error: the listing goes on as if after the sectors before it.
pub proof fn lemma_sentinel_first_sector_is_skipped(
    sectors: Seq<Seq<u8>>,
    block: Seq<u8>,
    extent_length: int,
)
    requires
        block.len() > 0,
        block[0] == 0,
    ensures
        directory_records(sectors.push(block), extent_length) == directory_records(
            sectors,
            extent_length,
        ),
{
    let longer = sectors.push(block);
    assert(longer.drop_last() == sectors);
    lemma_sentinel_first_sector_is_empty(
        block,
        spec_block_len(extent_length, longer.len() - 1),
    );
    match directory_records(sectors, extent_length) {
        Ok(before) => {
            assert(before + Seq::<RecordView>::empty() == before);
        },
        Err(_) => {},
    }
}

/// Two listings of one directory that were made from the same sectors are
/// equal in value: as many entries, and at each place the same record, the
/// same variant and the same reader.
pub proof fn lemma_same_sectors_same_listing<T: ISO9660Reader>(
    directory: ISODirectory<T>,
    sectors: Seq<Seq<u8>>,
    first: Seq<DirectoryEntry<T>>,
    second: Seq<DirectoryEntry<T>>,
)
    requires
        directory.children(first),
        directory.children(second),
        directory_records(sectors, directory.record().header.extent_length as int) == Ok::<
            Seq<RecordView>,
            Defect,
        >(records_of(first)),
        directory_records(sectors, directory.record().header.extent_length as int) == Ok::<
            Seq<RecordView>,
            Defect,
        >(records_of(second)),
    ensures
        first.len() == second.len(),
        forall|i: int|
            0 <= i < first.len() ==> {
                &&& (#[trigger] first[i]).record() == second[i].record()
                &&& first[i] is Directory <==> second[i] is Directory
                &&& first[i].reader() == second[i].reader()
            },
{
    assert(records_of(first).len() == first.len());
    assert(records_of(second).len() == second.len());
    assert forall|i: int| 0 <= i < first.len() implies {
        &&& (#[trigger] first[i]).record() == second[i].record()
        &&& first[i] is Directory <==> second[i] is Directory
        &&& first[i].reader() == second[i].reader()
    } by {
        assert(records_of(first)[i] == first[i].record());
        assert(records_of(second)[i] == second[i].record());
    }
}

/// The address of sector number `index` of an extent that starts at
/// `extent_loc`.
pub open spec fn sector_address(extent_loc: u32, index: int) -> u64 {
    (extent_loc + index) as u64
}

/// What a read of one sector that returned `read` amounts to: success where
/// a whole sector was read, the reader's error where it failed, and a short
/// read where any other number of bytes came back.
pub fn whole_sector(read: Result<usize, io::Error>) -> (r: Result<(), ISOError>)
    ensures
        match read {
            Ok(count) => if count == SECTOR_SIZE {
                r is Ok
            } else {
                r == Err::<(), ISOError>(ISOError::ReadSize(SECTOR_SIZE, count))
            },
            Err(e) => r == Err::<(), ISOError>(ISOError::Io(e)),
        },
{
    match read {
        Ok(count) => if count == SECTOR_SIZE {
            Ok(())
        } else {
            Err(ISOError::ReadSize(SECTOR_SIZE, count))
        },
        Err(e) => Err(ISOError::Io(e)),
    }
}

/// A directory: its record, and a share of the reader through which its
/// listing is read.
#[derive(Debug)]
#[verifier::reject_recursive_types(T)]
pub struct ISODirectory<T: ISO9660Reader> {
    pub(crate) header: DirectoryEntryHeader,
    pub identifier: String,
    file: FileRef<T>,
}

impl<T: ISO9660Reader> Clone for ISODirectory<T> {
    /// Another node for the same directory, with a share of the same reader.
    fn clone(&self) -> (other: ISODirectory<T>)
        ensures
            other.record() == self.record(),
            other.reader() == self.reader(),
    {
        ISODirectory {
            header: self.header,
            identifier: self.identifier.clone(),
            file: self.file.clone(),
        }
    }
}

impl<T: ISO9660Reader> ISODirectory<T> {
    /// The record that this directory was made from.
    pub closed spec fn record(&self) -> RecordView {
        RecordView { header: self.header, identifier: self.identifier@ }
    }

    /// The handle through which this directory reads.
    pub closed spec fn reader(&self) -> FileRef<T> {
        self.file
    }

    /// A directory with the given record, reading through `file`.
    pub fn new(header: DirectoryEntryHeader, identifier: String, file: FileRef<T>) -> (node:
        ISODirectory<T>)
        ensures
            node.record() == (RecordView { header, identifier: identifier@ }),
            node.reader() == file,
    {
        ISODirectory { header, identifier, file }
    }

    /// The header of the record.
    pub fn header(&self) -> (header: &DirectoryEntryHeader)
        ensures
            *header == self.record().header,
    {
        &self.header
    }

    /// The identifier of the record.
    pub fn identifier(&self) -> (identifier: &str)
        ensures
            identifier@ == self.record().identifier,
    {
        self.identifier.as_str()
    }

    /// Whether each of `entries` reads through this directory's reader, has
    /// the variant that its header selects, and has a well-formed header.
    pub open spec fn children(&self, entries: Seq<DirectoryEntry<T>>) -> bool {
        forall|i: int|
            0 <= i < entries.len() ==> {
                &&& (#[trigger] entries[i]).reader() == self.reader()
                &&& entries[i].well_classified()
                &&& entries[i].record().header.well_formed()
            }
    }

    /// Whether `r` is how a listing of this directory ends after it has read
    /// `sectors`, whole and in this order, from the start of the extent.
    ///
    /// A listing is the records of all the sectors that the extent has. A
    /// defect is the defect of the last sector read, and the sectors before
    /// it held none. A read fails only where a sector is still to be read
    /// and the sectors read so far held no defect.
    pub open spec fn ends_with(
        &self,
        sectors: Seq<Seq<u8>>,
        r: Result<Vec<DirectoryEntry<T>>, ISOError>,
    ) -> bool {
        let extent_length = self.record().header.extent_length as int;
        &&& whole_sectors(sectors)
        &&& sectors.len() <= spec_sector_count(extent_length)
        &&& match r {
            Ok(entries) => {
                &&& sectors.len() == spec_sector_count(extent_length)
                &&& directory_records(sectors, extent_length) == Ok::<Seq<RecordView>, Defect>(
                    records_of(entries@),
                )
                &&& self.children(entries@)
            },
            Err(ISOError::Io(_)) => {
                &&& sectors.len() < spec_sector_count(extent_length)
                &&& directory_records(sectors, extent_length) is Ok
            },
            Err(ISOError::ReadSize(expected, actual)) => {
                &&& sectors.len() < spec_sector_count(extent_length)
                &&& directory_records(sectors, extent_length) is Ok
                &&& expected == SECTOR_SIZE
                &&& actual != SECTOR_SIZE
            },
            Err(ISOError::ParseInt(_)) => false,
            Err(e) => {
                &&& sectors.len() > 0
                &&& directory_records(sectors.drop_last(), extent_length) is Ok
                &&& directory_records(sectors, extent_length) matches Err(defect)
                &&& reports(e, defect)
            },
        }
    }

    /// Appends to `entries` the entry of each of `records`, in their order,
    /// each with a share of this directory's reader.
    fn adopt(&self, records: Vec<DirectoryRecord>, entries: &mut Vec<DirectoryEntry<T>>)
        requires
            self.children(old(entries)@),
            forall|i: int|
                0 <= i < records@.len() ==> (#[trigger] records@[i]).header.well_formed(),
        ensures
            records_of(final(entries)@) == records_of(old(entries)@) + views(records@),
            self.children(final(entries)@),
    {
        let ghost before = entries@;
        let ghost all = records@;
        for record in it: records
            invariant
                it.seq() == all,
                records_of(entries@) == records_of(before) + views(all.take(it.index())),
                self.children(entries@),
                forall|i: int| 0 <= i < all.len() ==> (#[trigger] all[i]).header.well_formed(),
        {
            proof {
                let done = it.index();
                assert(all.take(done + 1) == all.take(done).push(all[done]));
                assert(views(all.take(done + 1)) == views(all.take(done)).push(record@));
            }
            let entry = DirectoryEntry::classify(record, self.file.clone());
            assert(records_of(entries@.push(entry)) == records_of(entries@).push(entry.record()));
            entries.push(entry);
        }
        assert(all.take(all.len() as int) == all);
    }

    /// Lists the children of this directory, in the order in which their
    /// records stand in the directory's extent.
    ///
    /// Each sector of the extent is read through the directory's reader, at
    /// the extent's address plus the sector's number, and its records are
    /// decoded. The first failure ends the listing: a failed read, a read
    /// that did not return a whole sector, or a defective record. No entry
    /// is returned then.
    ///
    /// What the reader returns is not known beforehand, so the contract
    /// speaks of the sectors that were read. There are sectors with which
    /// the listing ends as [`Self::ends_with`] says. Each of them is what a
    /// reader of type `T` left in a buffer of one sector when it was asked
    /// for the sector's address and returned the size of a sector. The
    /// count of a short read is one that such a reader returned for the
    /// address of the sector that was due. A directory with an empty extent
    /// is listed without a read.
    pub fn contents(&self) -> (r: Result<Vec<DirectoryEntry<T>>, ISOError>)
        ensures
            self.record().header.extent_length == 0 ==> r is Ok,
            exists|sectors: Seq<Seq<u8>>|
                {
                    &&& #[trigger] self.ends_with(sectors, r)
                    &&& forall|i: int|
                        0 <= i < sectors.len() ==> {
                            &&& (#[trigger] sectors[i]).len() == SECTOR_SIZE
                            &&& exists|reader: &mut T, buffer: &mut [u8]|
                                {
                                    &&& (*buffer)@.len() == SECTOR_SIZE
                                    &&& (*final(buffer))@ == sectors[i]
                                    &&& #[trigger] call_ensures(
                                        T::read_at,
                                        (
                                            reader,
                                            buffer,
                                            sector_address(self.record().header.extent_loc, i),
                                        ),
                                        Ok::<usize, io::Error>(SECTOR_SIZE),
                                    )
                                }
                        }
                    &&& r matches Err(ISOError::ReadSize(_, actual)) ==> exists|
                        reader: &mut T,
                        buffer: &mut [u8],
                    |
                        {
                            &&& (*buffer)@.len() == SECTOR_SIZE
                            &&& #[trigger] call_ensures(
                                T::read_at,
                                (
                                    reader,
                                    buffer,
                                    sector_address(
                                        self.record().header.extent_loc,
                                        sectors.len() as int,
                                    ),
                                ),
                                Ok::<usize, io::Error>(actual),
                            )
                        }
                },
    {
        let loc: u32 = self.header.extent_loc;
        let len: u32 = self.header.extent_length;
        let count: u32 = sector_count(len);
        let mut entries: Vec<DirectoryEntry<T>> = Vec::new();
        let mut block: [u8; SECTOR_SIZE] = [0u8; SECTOR_SIZE];
        let ghost mut sectors: Seq<Seq<u8>> = Seq::empty();
        let mut index: u32 = 0;
        assert(records_of(entries@) == Seq::<RecordView>::empty());
        while index < count
            invariant
                len == self.record().header.extent_length,
                loc == self.record().header.extent_loc,
                count == spec_sector_count(len as int),
                index <= count,
                sectors.len() == index,
                whole_sectors(sectors),
                directory_records(sectors, len as int) == Ok::<Seq<RecordView>, Defect>(
                    records_of(entries@),
                ),
                self.children(entries@),
                forall|i: int|
                    0 <= i < sectors.len() ==> {
                        &&& (#[trigger] sectors[i]).len() == SECTOR_SIZE
                        &&& exists|reader: &mut T, buffer: &mut [u8]|
                            {
                                &&& (*buffer)@.len() == SECTOR_SIZE
                                &&& (*final(buffer))@ == sectors[i]
                                &&& #[trigger] call_ensures(
                                    T::read_at,
                                    (reader, buffer, sector_address(loc, i)),
                                    Ok::<usize, io::Error>(SECTOR_SIZE),
                                )
                            }
                    },
            decreases count - index,
        {
            let limit: u32 = block_len(len, index);
            let lba: u64 = loc as u64 + index as u64;
            assert(lba == sector_address(loc, index as int));
            let read = self.file.read_at(&mut block, lba);
            let ghost returned = read;
            match whole_sector(read) {
                Err(e) => {
                    assert(self.ends_with(sectors, Err(e)));
                    return Err(e);
                },
                Ok(()) => {},
            }
            proof {
                let ghost longer = sectors.push(block@);
                assert(longer.drop_last() == sectors);
                assert(returned == Ok::<usize, io::Error>(SECTOR_SIZE));
                assert forall|i: int| 0 <= i < longer.len() implies {
                    &&& (#[trigger] longer[i]).len() == SECTOR_SIZE
                    &&& exists|reader: &mut T, buffer: &mut [u8]|
                        {
                            &&& (*buffer)@.len() == SECTOR_SIZE
                            &&& (*final(buffer))@ == longer[i]
                            &&& #[trigger] call_ensures(
                                T::read_at,
                                (reader, buffer, sector_address(loc, i)),
                                Ok::<usize, io::Error>(SECTOR_SIZE),
                            )
                        }
                } by {
                    if i < sectors.len() {
                        assert(longer[i] == sectors[i]);
                    }
                }
                sectors = longer;
            }
            match parse_sector(block.as_slice(), limit) {
                Err(e) => {
                    assert(directory_records(sectors, len as int) is Err);
                    assert(self.ends_with(sectors, Err(e)));
                    return Err(e);
                },
                Ok(records) => {
                    self.adopt(records, &mut entries);
                },
            }
            index += 1;
        }
        assert(self.ends_with(sectors, Ok(entries)));
        Ok(entries)
    }
}

} // verus!
