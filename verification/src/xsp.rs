//! XSP patch files: a header followed by patch records that say which
//! blocks of a new package are downloaded and which are copied from the
//! old one.
use crate::guid::{lemma_le_form_round_trip, swap_le_fields, Guid};
use crate::le::{le_u32, le_u64, read_array, read_u32_le, read_u64_le};
use crate::version::{version_from_bytes, Version};
use vstd::prelude::*;

verus! {

/// Size of an XSP header in bytes.
pub const XSP_HEADER_SIZE: usize = 860;
/// Size of an XSP patch record in bytes.
pub const XSP_RECORD_SIZE: usize = 16;
/// Offset of the magic bytes in an XSP header.
pub const XSP_MAGIC_OFFSET: usize = 512;
/// Record flag of a block that is downloaded.
pub const XSP_FLAG_NEW_DATA: u32 = 0;
/// Record flag of a block that is copied from the old package.
pub const XSP_FLAG_COPY_DATA: u32 = 0x8800_0000;

/// The magic bytes `MS-XPFM ` that follow the signature of an XSP header.
pub open spec fn xsp_magic() -> Seq<u8> {
    seq![77u8, 83u8, 45u8, 88u8, 80u8, 70u8, 77u8, 32u8]
}

/// The header of an XSP patch file.
#[derive(Debug, Clone)]
pub struct XspHeader {
    pub content_id: Guid,
    pub plan_id: Guid,
    pub xsp_id: Guid,
    pub page_size: u32,
    pub record_count: u32,
    pub total_download: u64,
    pub disk_space_required: u64,
    pub upgrade_from_version: Version,
    pub upgrade_to_version: Version,
}

/// Why an XSP header could not be read.
#[derive(Debug)]
pub enum XspHeaderParseError {
    /// The magic bytes were not `MS-XPFM `; these bytes were found instead.
    InvalidMagic([u8; 8]),
}

/// One patch record: a run of new blocks to download, or a run of blocks to
/// copy from the old package.
#[derive(Debug, Clone, Copy, PartialEq, Eq, Structural)]
pub enum XspPatchRecord {
    NewData { block_number: u32, block_count: u32 },
    CopyData { old_block_number: u32, new_block_number: u32, block_count: u32 },
}

/// Why an XSP patch record could not be read.
#[derive(Debug, Clone, Copy, PartialEq, Eq, Structural)]
pub enum XspPatchRecordParseError {
    /// The record's flag is neither the new-data nor the copy-data flag.
    UnknownFlag(u32),
}

/// The header fields as stored in `b`, an XSP header whose magic is right.
pub open spec fn xsp_header_matches(h: XspHeader, b: Seq<u8>) -> bool {
    &&& h.content_id.bytes@ == swap_le_fields(b.subrange(0x210, 0x220))
    &&& h.plan_id.bytes@ == swap_le_fields(b.subrange(0x318, 0x328))
    &&& h.xsp_id.bytes@ == swap_le_fields(b.subrange(0x33C, 0x34C))
    &&& h.page_size == le_u32(b, 0x208)
    &&& h.record_count == le_u32(b, 0x27C)
    &&& h.total_download == le_u64(b, 0x2C8)
    &&& h.disk_space_required == le_u64(b, 0x2D0)
    &&& h.upgrade_from_version == version_from_bytes(b, 0x34C)
    &&& h.upgrade_to_version == version_from_bytes(b, 0x354)
}

/// The record stored in the sixteen bytes of `b` at `at`: source block,
/// flag, target block and block count, each a little-endian `u32`.
pub open spec fn xsp_record_from_bytes(b: Seq<u8>, at: int) -> Result<
    XspPatchRecord,
    XspPatchRecordParseError,
> {
    let source = le_u32(b, at) as u32;
    let flag = le_u32(b, at + 4) as u32;
    let target = le_u32(b, at + 8) as u32;
    let count = le_u32(b, at + 12) as u32;
    if flag == 0 {
        Ok(XspPatchRecord::NewData { block_number: target, block_count: count })
    } else if flag == 0x8800_0000 {
        Ok(
            XspPatchRecord::CopyData {
                old_block_number: source,
                new_block_number: target,
                block_count: count,
            },
        )
    } else {
        Err(XspPatchRecordParseError::UnknownFlag(flag))
    }
}

/// Every identifier of the header is stored in its little-endian form:
/// writing the identifier back in that form gives the stored bytes.
pub open spec fn identifiers_stored_le(h: XspHeader, b: Seq<u8>) -> bool {
    &&& swap_le_fields(h.content_id.bytes@) == b.subrange(0x210, 0x220)
    &&& swap_le_fields(h.plan_id.bytes@) == b.subrange(0x318, 0x328)
    &&& swap_le_fields(h.xsp_id.bytes@) == b.subrange(0x33C, 0x34C)
}

/// A parsed header's identifiers are the little-endian decodings of their
/// stored sixteen bytes: content id at 0x210, plan id at 0x318, XSP id at
/// 0x33C. For instance the stored bytes `00 01 02 .. 0F` give the standard
/// bytes `03 02 01 00 05 04 07 06 08 .. 0F`.
pub proof fn lemma_header_identifiers_are_le(h: XspHeader, b: Seq<u8>)
    requires
        b.len() == 860,
        xsp_header_matches(h, b),
    ensures
        identifiers_stored_le(h, b),
        h.xsp_id.bytes@[0] == b[0x33F] && h.xsp_id.bytes@[3] == b[0x33C],
        h.xsp_id.bytes@[4] == b[0x341] && h.xsp_id.bytes@[6] == b[0x343],
        h.xsp_id.bytes@[8] == b[0x344],
{
    lemma_le_form_round_trip(b.subrange(0x210, 0x220));
    lemma_le_form_round_trip(b.subrange(0x318, 0x328));
    lemma_le_form_round_trip(b.subrange(0x33C, 0x34C));
}

impl XspHeader {
    /// Parses an XSP header: a 512-byte signature, the magic `MS-XPFM `,
    /// then the fields at fixed little-endian offsets.
    pub fn try_parse(bytes: &[u8]) -> (r: Result<XspHeader, XspHeaderParseError>)
        requires
            bytes@.len() == 860,
        ensures
            bytes@.subrange(512, 520) == xsp_magic() ==> (r matches Ok(h) && xsp_header_matches(
                h,
                bytes@,
            )),
            bytes@.subrange(512, 520) != xsp_magic() ==> (r matches Err(
                XspHeaderParseError::InvalidMagic(got),
            ) && got@ == bytes@.subrange(512, 520)),
            r matches Ok(h) ==> identifiers_stored_le(h, bytes@),
    {
        let magic: [u8; 8] = read_array(bytes, 512);
        if !(magic[0] == 77 && magic[1] == 83 && magic[2] == 45 && magic[3] == 88 && magic[4] == 80
            && magic[5] == 70 && magic[6] == 77 && magic[7] == 32) {
            proof {
                if bytes@.subrange(512, 520) == xsp_magic() {
                    assert(magic@[0] == 77 && magic@[1] == 83 && magic@[2] == 45 && magic@[3] == 88);
                    assert(magic@[4] == 80 && magic@[5] == 70 && magic@[6] == 77 && magic@[7] == 32);
                }
            }
            return Err(XspHeaderParseError::InvalidMagic(magic));
        }
        assert(bytes@.subrange(512, 520) =~= xsp_magic());
        let page_size = read_u32_le(bytes, 0x208);
        let content_id = Guid::from_bytes_le(read_array(bytes, 0x210));
        let record_count = read_u32_le(bytes, 0x27C);
        let total_download = read_u64_le(bytes, 0x2C8);
        let disk_space_required = read_u64_le(bytes, 0x2D0);
        let plan_id = Guid::from_bytes_le(read_array(bytes, 0x318));
        let xsp_id = Guid::from_bytes_le(read_array(bytes, 0x33C));
        let upgrade_from_version = Version::read_at(bytes, 0x34C);
        let upgrade_to_version = Version::read_at(bytes, 0x354);
        proof {
            lemma_le_form_round_trip(bytes@.subrange(0x210, 0x220));
            lemma_le_form_round_trip(bytes@.subrange(0x318, 0x328));
            lemma_le_form_round_trip(bytes@.subrange(0x33C, 0x34C));
        }
        Ok(XspHeader {
            content_id,
            plan_id,
            xsp_id,
            page_size,
            record_count,
            total_download,
            disk_space_required,
            upgrade_from_version,
            upgrade_to_version,
        })
    }
}

impl XspPatchRecord {
    /// Parses one sixteen-byte patch record.
    pub fn try_parse(bytes: &[u8]) -> (r: Result<XspPatchRecord, XspPatchRecordParseError>)
        requires
            bytes@.len() == 16,
        ensures
            r == xsp_record_from_bytes(bytes@, 0),
    {
        Self::read_at(bytes, 0)
    }

    /// Parses the sixteen-byte patch record at byte offset `at`.
    pub fn read_at(bytes: &[u8], at: usize) -> (r: Result<XspPatchRecord, XspPatchRecordParseError>)
        requires
            at + 16 <= bytes.len(),
        ensures
            r == xsp_record_from_bytes(bytes@, at as int),
    {
        let source_offset = read_u32_le(bytes, at);
        let flag = read_u32_le(bytes, at + 4);
        let target_offset = read_u32_le(bytes, at + 8);
        let block_count = read_u32_le(bytes, at + 12);
        if flag == XSP_FLAG_NEW_DATA {
            Ok(XspPatchRecord::NewData { block_number: target_offset, block_count })
        } else if flag == XSP_FLAG_COPY_DATA {
            Ok(
                XspPatchRecord::CopyData {
                    old_block_number: source_offset,
                    new_block_number: target_offset,
                    block_count,
                },
            )
        } else {
            Err(XspPatchRecordParseError::UnknownFlag(flag))
        }
    }
}

/// A parsed XSP patch file.
#[derive(Debug, Clone)]
pub struct XspFile {
    pub header: XspHeader,
    pub entries: Vec<XspPatchRecord>,
}

/// Why an XSP patch file could not be read.
#[derive(Debug)]
pub enum XspParseError {
    /// The data ends before the header or before one of the records.
    Truncated,
    Header(XspHeaderParseError),
    Record(XspPatchRecordParseError),
}

/// Record `k` of a file whose records start at byte `base` lies inside `data`.
pub open spec fn xsp_record_in_bounds(data: Seq<u8>, base: int, k: int) -> bool {
    base + 16 * (k + 1) <= data.len()
}

/// Reads records `k`, `k + 1`, ... up to `count`, in order, each sixteen
/// bytes after the one before, stopping at the first record that is out of
/// the data (`Truncated`) or has an unknown flag.
pub open spec fn xsp_records_from(data: Seq<u8>, base: int, count: int, k: int) -> Result<
    Seq<XspPatchRecord>,
    XspParseError,
>
    decreases count - k,
{
    if k >= count {
        Ok(Seq::empty())
    } else if !xsp_record_in_bounds(data, base, k) {
        Err(XspParseError::Truncated)
    } else {
        match xsp_record_from_bytes(data, base + 16 * k) {
            Err(e) => Err(XspParseError::Record(e)),
            Ok(rec) => match xsp_records_from(data, base, count, k + 1) {
                Ok(rest) => Ok(seq![rec] + rest),
                Err(e) => Err(e),
            },
        }
    }
}

/// `prefix` followed by the records of `res`, or the error of `res`.
pub open spec fn prepend_records(prefix: Seq<XspPatchRecord>, res: Result<
    Seq<XspPatchRecord>,
    XspParseError,
>) -> Result<Seq<XspPatchRecord>, XspParseError> {
    match res {
        Ok(rest) => Ok(prefix + rest),
        Err(e) => Err(e),
    }
}

impl XspFile {
    /// Parses a whole XSP patch file: the header at the start, then
    /// `record_count` records starting at byte `page_size`.
    pub fn parse_bytes(data: &[u8]) -> (r: Result<XspFile, XspParseError>)
        ensures
            data@.len() < 860 ==> r matches Err(XspParseError::Truncated),
            data@.len() >= 860 && data@.subrange(512, 520) != xsp_magic() ==> (r matches Err(
                XspParseError::Header(XspHeaderParseError::InvalidMagic(got)),
            ) && got@ == data@.subrange(512, 520)),
            data@.len() >= 860 && data@.subrange(512, 520) == xsp_magic() ==> {
                let base = le_u32(data@, 0x208);
                let count = le_u32(data@, 0x27C);
                match xsp_records_from(data@, base, count, 0) {
                    Ok(entries) => (r matches Ok(f) && xsp_header_matches(
                        f.header,
                        data@.subrange(0, 860),
                    ) && f.entries@ == entries),
                    Err(XspParseError::Truncated) => r matches Err(XspParseError::Truncated),
                    Err(XspParseError::Record(e)) => (r matches Err(XspParseError::Record(e2))
                        && e2 == e),
                    Err(XspParseError::Header(_)) => false,
                }
            },
    {
        if data.len() < XSP_HEADER_SIZE {
            return Err(XspParseError::Truncated);
        }
        let head = vstd::slice::slice_subrange(data, 0, XSP_HEADER_SIZE);
        let header = match XspHeader::try_parse(head) {
            Ok(h) => h,
            Err(e) => {
                return Err(XspParseError::Header(e));
            },
        };
        proof {
            assert(head@ =~= data@.subrange(0, 860));
            assert(head@.subrange(512, 520) =~= data@.subrange(512, 520));
            assert(le_u32(head@, 0x208) == le_u32(data@, 0x208));
            assert(le_u32(head@, 0x27C) == le_u32(data@, 0x27C));
        }
        let base = header.page_size as u64;
        let count = header.record_count;
        let mut entries: Vec<XspPatchRecord> = Vec::new();
        let mut k: u32 = 0;
        while k < count
            invariant
                k <= count,
                data@.len() >= 860,
                data@.subrange(512, 520) == xsp_magic(),
                xsp_header_matches(header, data@.subrange(0, 860)),
                base == le_u32(data@, 0x208),
                count == le_u32(data@, 0x27C),
                entries@.len() == k,
                xsp_records_from(data@, base as int, count as int, 0) == prepend_records(
                    entries@,
                    xsp_records_from(data@, base as int, count as int, k as int),
                ),
            decreases count - k,
        {
            let pos = base + 16 * (k as u64);
            if pos + 16 > data.len() as u64 {
                return Err(XspParseError::Truncated);
            }
            let rec = match XspPatchRecord::read_at(data, pos as usize) {
                Ok(rec) => rec,
                Err(e) => {
                    return Err(XspParseError::Record(e));
                },
            };
            proof {
                let rest = xsp_records_from(data@, base as int, count as int, k + 1);
                match rest {
                    Ok(rs) => {
                        assert(entries@.push(rec) + rs =~= entries@ + (seq![rec] + rs));
                    },
                    Err(_) => {},
                }
            }
            entries.push(rec);
            k = k + 1;
        }
        proof {
            assert(entries@ + Seq::<XspPatchRecord>::empty() =~= entries@);
        }
        Ok(XspFile { header, entries })
    }
}

} // verus!
