//! The directory record: a fixed header of 33 bytes, the identifier, and an
//! area for system use that is not interpreted.
//!
//! | Offset | Width | Field                              |
//! |--------|-------|------------------------------------|
//! | 0      | 1     | record length                      |
//! | 1      | 8     | extent address (dual-endian)       |
//! | 9      | 8     | extent byte length (dual-endian)   |
//! | 17     | 7     | recording date and time            |
//! | 24     | 1     | flags (bit 0 marks a directory)    |
//! | 25     | 3     | interleave fields                  |
//! | 28     | 4     | volume sequence number             |
//! | 32     | 1     | identifier length                  |
//! | 33     | var.  | identifier (UTF-8)                 |

use crate::error::ISOError;
use crate::parse::both_endian::both_endian32;
use crate::parse::both_endian::spec_le_u32;
use std::str::Utf8Error;
use vstd::prelude::*;
use vstd::utf8::decode_utf8;
use vstd::utf8::valid_utf8;

verus! {

/// Size in bytes of the fixed part of a record.
pub const HEADER_SIZE: usize = 33;

/// The least length a record may declare: its header and one byte of identifier.
pub const MIN_RECORD_LENGTH: u8 = 34;

/// `std::str::from_utf8` succeeds exactly on well-formed UTF-8, and the text
/// it returns is the decoding of the bytes.
pub assume_specification<'a>[ core::str::from_utf8 ](bytes: &'a [u8]) -> (text: Result<
    &'a str,
    Utf8Error,
>)
    ensures
        text is Ok <==> valid_utf8(bytes@),
        text matches Ok(s) ==> s@ == decode_utf8(bytes@),
;

/// The fixed fields of a directory record that this crate interprets.
#[derive(Clone, Copy, Debug, PartialEq, Eq, Structural)]
pub struct DirectoryEntryHeader {
    /// Size in bytes of the whole record on the medium.
    pub length: u8,
    /// Logical block address of the data the record refers to.
    pub extent_loc: u32,
    /// Size in bytes of that data.
    pub extent_length: u32,
    /// The flag byte.
    pub file_flags: u8,
    /// Size in bytes of the identifier that follows the header.
    pub file_identifier_len: u8,
}

impl DirectoryEntryHeader {
    /// The rules that every decoded header obeys.
    pub open spec fn well_formed(&self) -> bool {
        &&& self.length >= MIN_RECORD_LENGTH
        &&& self.length % 2 == 0
        &&& self.file_identifier_len <= self.length
    }

    /// Whether bit 0 of the flags is set, that is, whether the flag byte is odd.
    pub open spec fn spec_is_directory(&self) -> bool {
        self.file_flags % 2 == 1
    }

    /// Whether the record describes a directory rather than a file.
    #[verifier::when_used_as_spec(spec_is_directory)]
    pub fn is_directory(&self) -> (b: bool)
        ensures
            b == self.spec_is_directory(),
    {
        let flags: u8 = self.file_flags;
        assert((flags & 1 == 1) == (flags % 2 == 1)) by (bit_vector);
        flags & 1 == 1
    }
}

/// A directory record as plain values: its header and the text of its identifier.
pub struct RecordView {
    pub header: DirectoryEntryHeader,
    pub identifier: Seq<char>,
}

/// A decoded directory record.
#[derive(Debug)]
pub struct DirectoryRecord {
    pub header: DirectoryEntryHeader,
    pub identifier: String,
}

impl View for DirectoryRecord {
    type V = RecordView;

    open spec fn view(&self) -> RecordView {
        RecordView { header: self.header, identifier: self.identifier@ }
    }
}

/// The ways in which the bytes of a record can break the format.
pub enum Defect {
    /// The declared length is below 34.
    LengthTooShort,
    /// The declared length is more than what is left of the sector.
    LengthExceedsSector,
    /// The declared length is odd.
    LengthNotEven,
    /// The identifier length is more than the record length, or the
    /// identifier would run past the end of the sector.
    IdentifierTooLong,
    /// The identifier is not valid UTF-8.
    IdentifierNotText,
}

/// What the bytes at the start of a record stand for.
pub enum Decoded {
    /// No further record in this sector.
    End,
    /// A record.
    Record(RecordView),
    /// Bytes that break the format.
    Defective(Defect),
}

/// Whether the error `e` is the one by which the defect `d` is reported.
pub open spec fn reports(e: ISOError, d: Defect) -> bool {
    match d {
        Defect::LengthTooShort => e matches ISOError::InvalidFs(reason) && reason@
            == "length < 34"@,
        Defect::LengthExceedsSector => e matches ISOError::InvalidFs(reason) && reason@
            == "length exceeds sector remainder"@,
        Defect::LengthNotEven => e matches ISOError::InvalidFs(reason) && reason@
            == "length not even"@,
        Defect::IdentifierTooLong => e matches ISOError::InvalidFs(reason) && reason@
            == "identifier length exceeds record length"@,
        Defect::IdentifierNotText => e is Utf8,
    }
}

/// The header whose fields stand at their fixed offsets in `entry`.
pub open spec fn spec_header(entry: Seq<u8>) -> DirectoryEntryHeader {
    DirectoryEntryHeader {
        length: entry[0],
        extent_loc: spec_le_u32(entry, 1) as u32,
        extent_length: spec_le_u32(entry, 9) as u32,
        file_flags: entry[24],
        file_identifier_len: entry[32],
    }
}

/// The bytes of the identifier: as many as byte 32 says, from offset 33 on.
pub open spec fn identifier_bytes(entry: Seq<u8>) -> Seq<u8> {
    entry.subrange(HEADER_SIZE as int, HEADER_SIZE + entry[32])
}

/// What `entry`, the rest of a sector from the start of a record on, stands
/// for. The checks are made in this order, and the first that fails decides.
pub open spec fn decode(entry: Seq<u8>) -> Decoded {
    if entry.len() == 0 || entry[0] == 0 {
        Decoded::End
    } else if entry[0] < MIN_RECORD_LENGTH {
        Decoded::Defective(Defect::LengthTooShort)
    } else if entry[0] > entry.len() {
        Decoded::Defective(Defect::LengthExceedsSector)
    } else if entry[0] % 2 != 0 {
        Decoded::Defective(Defect::LengthNotEven)
    } else if entry[32] > entry[0] || HEADER_SIZE + entry[32] > entry.len() {
        Decoded::Defective(Defect::IdentifierTooLong)
    } else if !valid_utf8(identifier_bytes(entry)) {
        Decoded::Defective(Defect::IdentifierNotText)
    } else {
        Decoded::Record(
            RecordView {
                header: spec_header(entry),
                identifier: decode_utf8(identifier_bytes(entry)),
            },
        )
    }
}

/// A record that declares a length from 1 to 33 is defective: too short.
pub proof fn lemma_short_length_is_rejected(entry: Seq<u8>)
    requires
        entry.len() > 0,
        0 < entry[0] < MIN_RECORD_LENGTH,
    ensures
        decode(entry) == Decoded::Defective(Defect::LengthTooShort),
{
}

/// A record that declares an odd length of 35 or more, and no more than is
/// left of the sector, is defective: its length is not even.
pub proof fn lemma_odd_length_is_rejected(entry: Seq<u8>)
    requires
        entry.len() > 0,
        MIN_RECORD_LENGTH <= entry[0] <= entry.len(),
        entry[0] % 2 == 1,
    ensures
        decode(entry) == Decoded::Defective(Defect::LengthNotEven),
{
}

/// A record whose length passes the checks and whose identifier length
/// exceeds its length is defective: the identifier is too long.
pub proof fn lemma_long_identifier_is_rejected(entry: Seq<u8>)
    requires
        entry.len() > 0,
        MIN_RECORD_LENGTH <= entry[0] <= entry.len(),
        entry[0] % 2 == 0,
        entry[32] > entry[0],
    ensures
        decode(entry) == Decoded::Defective(Defect::IdentifierTooLong),
{
}

/// A record that passes the structural checks and whose identifier is not
/// valid UTF-8 is defective, and the defect is reported by a text-decoding
/// error and by no other.
pub proof fn lemma_bad_text_is_rejected(entry: Seq<u8>, e: ISOError)
    requires
        entry.len() > 0,
        MIN_RECORD_LENGTH <= entry[0] <= entry.len(),
        entry[0] % 2 == 0,
        entry[32] <= entry[0],
        HEADER_SIZE + entry[32] <= entry.len(),
        !valid_utf8(identifier_bytes(entry)),
    ensures
        decode(entry) == Decoded::Defective(Defect::IdentifierNotText),
        reports(e, Defect::IdentifierNotText) <==> e is Utf8,
{
}

/// Whether the result `r` of decoding a record says what `d` says.
pub open spec fn agrees(r: Result<Option<DirectoryRecord>, ISOError>, d: Decoded) -> bool {
    match d {
        Decoded::End => r matches Ok(None),
        Decoded::Record(v) => r matches Ok(Some(record)) && record@ == v,
        Decoded::Defective(defect) => r matches Err(e) && reports(e, defect),
    }
}

/// Reads the fixed fields of the record that starts `entry`.
pub fn decode_header(entry: &[u8]) -> (header: DirectoryEntryHeader)
    requires
        entry@.len() >= HEADER_SIZE,
    ensures
        header == spec_header(entry@),
{
    DirectoryEntryHeader {
        length: entry[0],
        extent_loc: both_endian32(entry, 1),
        extent_length: both_endian32(entry, 9),
        file_flags: entry[24],
        file_identifier_len: entry[32],
    }
}

/// Decodes the record at the start of `entry`, which is the rest of a sector
/// from the record's first byte on.
///
/// Returns `Ok(None)` where the length byte is zero, or nothing is left of
/// the sector: no further record stands in it. Otherwise the record is
/// checked and decoded; a record whose identifier would not fit into the
/// rest of the sector is reported like one whose identifier is longer than
/// the record.
pub fn decode_record(entry: &[u8]) -> (r: Result<Option<DirectoryRecord>, ISOError>)
    ensures
        agrees(r, decode(entry@)),
        r matches Ok(Some(record)) ==> record.header.well_formed(),
{
    if entry.len() == 0 {
        return Ok(None);
    }
    let length: u8 = entry[0];
    if length == 0 {
        return Ok(None);
    }
    if length < MIN_RECORD_LENGTH {
        return Err(ISOError::InvalidFs("length < 34"));
    }
    if length as usize > entry.len() {
        return Err(ISOError::InvalidFs("length exceeds sector remainder"));
    }
    if length % 2 != 0 {
        return Err(ISOError::InvalidFs("length not even"));
    }
    let header = decode_header(entry);
    let end: usize = HEADER_SIZE + header.file_identifier_len as usize;
    if header.file_identifier_len > header.length || end > entry.len() {
        return Err(ISOError::InvalidFs("identifier length exceeds record length"));
    }
    match std::str::from_utf8(&entry[HEADER_SIZE..end]) {
        Ok(text) => Ok(Some(DirectoryRecord { header, identifier: text.to_owned() })),
        Err(e) => Err(ISOError::Utf8(e)),
    }
}

} // verus!
