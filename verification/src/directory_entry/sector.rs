//! Sectors, and the records that one sector of a directory's extent holds.

use crate::error::ISOError;
use crate::parse::directory_entry::decode;
use crate::parse::directory_entry::decode_record;
use crate::parse::directory_entry::reports;
use crate::parse::directory_entry::Decoded;
use crate::parse::directory_entry::Defect;
use crate::parse::directory_entry::DirectoryRecord;
use crate::parse::directory_entry::RecordView;
use crate::parse::directory_entry::MIN_RECORD_LENGTH;
use vstd::prelude::*;

verus! {

/// Size in bytes of one sector, the unit in which the medium is addressed.
pub const SECTOR_SIZE: usize = 2048;

/// Number of sectors that an extent of `extent_length` bytes occupies.
pub open spec fn spec_sector_count(extent_length: int) -> int {
    (extent_length + (SECTOR_SIZE - 1)) / (SECTOR_SIZE as int)
}

/// Number of sectors that an extent of `extent_length` bytes occupies:
/// the length divided by the sector size, rounded up.
pub fn sector_count(extent_length: u32) -> (count: u32)
    ensures
        count == spec_sector_count(extent_length as int),
{
    let size: u32 = SECTOR_SIZE as u32;
    let whole: u32 = extent_length / size;
    if extent_length % size == 0 {
        whole
    } else {
        whole + 1
    }
}

/// The sector count is the length divided by the sector size and rounded
/// up: the sectors counted hold the extent, and one sector fewer would not.
pub proof fn lemma_sector_count_is_ceiling(extent_length: int)
    requires
        extent_length >= 0,
    ensures
        spec_sector_count(extent_length) >= 0,
        extent_length <= spec_sector_count(extent_length) * SECTOR_SIZE,
        (spec_sector_count(extent_length) - 1) * SECTOR_SIZE < extent_length,
{
}

/// How many bytes of an extent of `extent_length` bytes fall into its sector
/// number `index`: what is left of the extent there, but no more than a sector.
pub open spec fn spec_block_len(extent_length: int, index: int) -> int {
    if extent_length - SECTOR_SIZE * index < SECTOR_SIZE {
        extent_length - SECTOR_SIZE * index
    } else {
        SECTOR_SIZE as int
    }
}

/// How many bytes of an extent of `extent_length` bytes fall into its sector
/// number `index`.
pub fn block_len(extent_length: u32, index: u32) -> (len: u32)
    requires
        index < spec_sector_count(extent_length as int),
    ensures
        len == spec_block_len(extent_length as int, index as int),
        0 < len <= SECTOR_SIZE,
{
    let size: u32 = SECTOR_SIZE as u32;
    let left: u32 = extent_length - size * index;
    if left < size {
        left
    } else {
        size
    }
}

/// The views of a sequence of records, in the same order.
pub open spec fn views(records: Seq<DirectoryRecord>) -> Seq<RecordView> {
    records.map_values(|record: DirectoryRecord| record@)
}

/// The records that stand in `block` from offset `pos` on, in the order in
/// which they stand there, or the first defect met. Records that start at
/// `limit` or beyond are not looked at, and a record of length zero ends the
/// scan of the sector.
pub open spec fn records_from(block: Seq<u8>, limit: int, pos: int) -> Result<
    Seq<RecordView>,
    Defect,
>
    decreases block.len() - pos,
{
    if pos < 0 || pos >= limit || pos >= block.len() {
        Ok(Seq::empty())
    } else {
        match decode(block.subrange(pos, block.len() as int)) {
            Decoded::End => Ok(Seq::empty()),
            Decoded::Defective(defect) => Err(defect),
            Decoded::Record(v) => match records_from(block, limit, pos + v.header.length) {
                Ok(rest) => Ok(seq![v] + rest),
                Err(defect) => Err(defect),
            },
        }
    }
}

/// The records of the sector `block`, of which the first `limit` bytes belong
/// to the directory's extent.
pub open spec fn sector_records(block: Seq<u8>, limit: int) -> Result<Seq<RecordView>, Defect> {
    records_from(block, limit, 0)
}

/// A sector whose first record has length zero holds no record and no
/// defect, whatever follows the zero.
pub proof fn lemma_sentinel_first_sector_is_empty(block: Seq<u8>, limit: int)
    requires
        block.len() > 0,
        block[0] == 0,
    ensures
        sector_records(block, limit) == Ok::<Seq<RecordView>, Defect>(Seq::empty()),
{
    assert(block.subrange(0, block.len() as int) == block);
}

/// The records that a sector yields obey the rules of the format: each has a
/// well-formed header, and since none is shorter than 34 bytes and none runs
/// past the end of the sector, there are no more of them than fit.
pub proof fn lemma_records_are_well_formed(block: Seq<u8>, limit: int, pos: int)
    requires
        0 <= pos <= block.len(),
    ensures
        records_from(block, limit, pos) matches Ok(found) ==> {
            &&& forall|i: int| 0 <= i < found.len() ==> (#[trigger] found[i]).header.well_formed()
            &&& found.len() * MIN_RECORD_LENGTH <= block.len() - pos
        },
    decreases block.len() - pos,
{
    if pos < limit && pos < block.len() {
        if let Decoded::Record(v) = decode(block.subrange(pos, block.len() as int)) {
            lemma_records_are_well_formed(block, limit, pos + v.header.length);
        }
    }
}

/// The records `found` so far, followed by what the rest of a scan gives.
pub open spec fn followed_by(found: Seq<RecordView>, rest: Result<Seq<RecordView>, Defect>) -> Result<
    Seq<RecordView>,
    Defect,
> {
    match rest {
        Ok(more) => Ok(found + more),
        Err(defect) => Err(defect),
    }
}

/// Decodes the records of one sector of a directory's extent. `block` holds
/// the sector and `block_len` says how many of its bytes belong to the
/// extent. The records come in the order in which they stand in the sector;
/// on the first defect the scan fails and no record is returned.
pub fn parse_sector(block: &[u8], block_len: u32) -> (r: Result<Vec<DirectoryRecord>, ISOError>)
    ensures
        match sector_records(block@, block_len as int) {
            Ok(found) => r matches Ok(records) && views(records@) == found,
            Err(defect) => r matches Err(e) && reports(e, defect),
        },
        r matches Ok(records) ==> forall|i: int|
            0 <= i < records@.len() ==> (#[trigger] records@[i]).header.well_formed(),
{
    let mut records: Vec<DirectoryRecord> = Vec::new();
    let mut pos: usize = 0;
    while pos < block_len as usize && pos < block.len()
        invariant
            pos <= block@.len(),
            followed_by(views(records@), records_from(block@, block_len as int, pos as int))
                == sector_records(block@, block_len as int),
            forall|i: int|
                0 <= i < records@.len() ==> (#[trigger] records@[i]).header.well_formed(),
        decreases block@.len() - pos,
    {
        let entry = &block[pos..block.len()];
        match decode_record(entry) {
            Err(e) => {
                return Err(e);
            },
            Ok(None) => {
                assert(views(records@) + Seq::<RecordView>::empty() == views(records@));
                return Ok(records);
            },
            Ok(Some(record)) => {
                proof {
                    let found = views(records@);
                    assert(views(records@.push(record)) == found.push(record@));
                    assert(forall|more: Seq<RecordView>|
                        found.push(record@) + more == found + (seq![record@] + more));
                }
                pos += record.header.length as usize;
                records.push(record);
            },
        }
    }
    assert(views(records@) + Seq::<RecordView>::empty() == views(records@));
    Ok(records)
}

} // verus!
