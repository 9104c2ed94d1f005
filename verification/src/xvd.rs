//! The layout of an XVD image: where its parts lie, which of its regions
//! are encrypted, and where the files inside it are placed.
use crate::flags::{XvcRegionFlags, XvdSegmentMetadataSegmentFlags};
use crate::guid::Guid;
use crate::text::{
    chars_of, contains_char, ends_with_ignore_ascii_case, ends_with_lower, replace_char,
    replace_chars, string_from_chars,
};
use vstd::prelude::*;

verus! {

/// The part of an XVC region header that the layout logic reads.
#[derive(Clone, Copy, PartialEq, Eq, Structural, Debug)]
pub struct XvcRegion {
    pub flags: XvcRegionFlags,
    /// Whether the region's key id marks it as encrypted.
    pub encrypted: bool,
    pub offset: u64,
    pub length: u64,
    pub first_segment_index: u32,
}

/// A file stored in the user-data area of an XVD image.
#[derive(Clone, Copy, PartialEq, Eq, Structural, Debug)]
pub struct UserPackageFile {
    pub offset: u64,
    pub length: u64,
}

/// A file stored in the drive data of an XVD image.
#[derive(Debug)]
pub struct SegmentFile {
    pub offset: u64,
    pub length: u64,
    pub data_hashs: Vec<[u8; 20]>,
    pub keep_encrypted: bool,
}

/// `a + b`, or `u64::MAX` when the sum does not fit.
pub open spec fn sat_add(a: u64, b: u64) -> int {
    if a + b <= u64::MAX {
        a + b
    } else {
        u64::MAX as int
    }
}

/// Region `r` meets the byte range that starts at `start` and ends
/// (saturating) at `end`.
pub open spec fn region_meets(r: XvcRegion, start: u64, end: int) -> bool {
    !(sat_add(r.offset, r.length) <= start || r.offset >= end)
}

/// The length of the part of `[start, start + len)` that comes before the
/// first region of `regions`, in list order, that meets the range: the
/// whole range when none meets it, nothing when that region already covers
/// `start`.
pub open spec fn plain_prefix_len(regions: Seq<XvcRegion>, start: u64, len: u64) -> int
    decreases regions.len(),
{
    if regions.len() == 0 {
        len as int
    } else if region_meets(regions[0], start, sat_add(start, len)) {
        if start >= regions[0].offset {
            0
        } else {
            regions[0].offset - start
        }
    } else {
        plain_prefix_len(regions.drop_first(), start, len)
    }
}

/// The length of the unencrypted prefix of the byte range `[start, start + len)`,
/// judged by the first encrypted region in `regions` that meets the range.
pub fn non_encrypted_prefix_len(regions: &[XvcRegion], start: u64, len: u64) -> (n: u64)
    ensures
        n == plain_prefix_len(regions@, start, len),
        n <= len,
{
    proof {
        lemma_plain_prefix_within(regions@, start, len);
    }
    let end = start.saturating_add(len);
    let mut i: usize = 0;
    assert(regions@.subrange(0, regions@.len() as int) =~= regions@);
    while i < regions.len()
        invariant
            i <= regions@.len(),
            end == sat_add(start, len),
            plain_prefix_len(regions@, start, len) == plain_prefix_len(
                regions@.subrange(i as int, regions@.len() as int),
                start,
                len,
            ),
        decreases regions@.len() - i,
    {
        let section = regions[i];
        let section_start = section.offset;
        let section_end = section.offset.saturating_add(section.length);
        let ghost rest = regions@.subrange(i as int, regions@.len() as int);
        assert(rest[0] == section);
        assert(rest.drop_first() =~= regions@.subrange(i + 1, regions@.len() as int));
        if section_end <= start || section_start >= end {
            i = i + 1;
        } else {
            if start >= section_start {
                return 0;
            }
            return section_start.saturating_sub(start);
        }
    }
    len
}

/// The unencrypted prefix of a range is never longer than the range.
pub proof fn lemma_plain_prefix_within(regions: Seq<XvcRegion>, start: u64, len: u64)
    ensures
        0 <= plain_prefix_len(regions, start, len) <= len,
    decreases regions.len(),
{
    if regions.len() > 0 && !region_meets(regions[0], start, sat_add(start, len)) {
        lemma_plain_prefix_within(regions.drop_first(), start, len);
    }
}

/// Region `r` shares a byte with the range `[a, b)`.
pub open spec fn region_intersects(r: XvcRegion, a: int, b: int) -> bool {
    a < b && r.offset < b && a < sat_add(r.offset, r.length)
}

/// The regions are listed in order of their offsets.
pub open spec fn regions_sorted(regions: Seq<XvcRegion>) -> bool {
    forall|i: int, j: int| 0 <= i <= j < regions.len() ==> regions[i].offset <= regions[j].offset
}

/// When the encrypted regions are listed in order of their offsets, the
/// unencrypted prefix of a range is no longer than the range and shares no
/// byte with any encrypted region.
pub proof fn lemma_plain_prefix_is_unencrypted(regions: Seq<XvcRegion>, start: u64, len: u64)
    requires
        regions_sorted(regions),
        start + len <= u64::MAX,
    ensures
        0 <= plain_prefix_len(regions, start, len) <= len,
        forall|j: int|
            0 <= j < regions.len() ==> !region_intersects(
                #[trigger] regions[j],
                start as int,
                start + plain_prefix_len(regions, start, len),
            ),
    decreases regions.len(),
{
    if regions.len() > 0 {
        let r0 = regions[0];
        let rest = regions.drop_first();
        assert(regions_sorted(rest));
        if region_meets(r0, start, sat_add(start, len)) {
            let p = plain_prefix_len(regions, start, len);
            assert forall|j: int| 0 <= j < regions.len() implies !region_intersects(
                #[trigger] regions[j],
                start as int,
                start + p,
            ) by {
                assert(regions[0].offset <= regions[j].offset);
            }
        } else {
            lemma_plain_prefix_is_unencrypted(rest, start, len);
            assert forall|j: int| 0 <= j < regions.len() implies !region_intersects(
                #[trigger] regions[j],
                start as int,
                start + plain_prefix_len(regions, start, len),
            ) by {
                if j > 0 {
                    assert(regions[j] == rest[j - 1]);
                }
            }
        }
    }
}

// ---------------------------------------------------------------------------
// Segment placement

/// The offset, from the start of the segment metadata, of its path table:
/// it follows the header and the sixteen-byte segment records.
pub fn segment_paths_offset(header_length: u32, segment_count: u32) -> (n: u64)
    ensures
        n == header_length + segment_count * 16,
{
    header_length as u64 + segment_count as u64 * 16
}

/// The part of a segment record of the segment metadata that the layout
/// logic reads.
#[derive(Clone, Copy, PartialEq, Eq, Structural, Debug)]
pub struct SegmentEntry {
    pub flags: XvdSegmentMetadataSegmentFlags,
    /// Offset of the segment's path in the path table, in bytes.
    pub path_offset: u32,
    /// Length of the segment's path, in UTF-16 units.
    pub path_length: u16,
    pub filesize: u64,
}

/// Where one segment of an encrypted region lies in the image.
#[derive(Clone, Copy, PartialEq, Eq, Structural, Debug)]
pub struct SegmentPlacement {
    pub segment_index: u32,
    pub offset: u64,
    pub length: u64,
    pub keep_encrypted: bool,
}

impl SegmentPlacement {
    /// The file that this placement describes.
    pub fn to_segment_file(&self) -> (f: SegmentFile)
        ensures
            f.offset == self.offset,
            f.length == self.length,
            f.data_hashs@.len() == 0,
            f.keep_encrypted == self.keep_encrypted,
    {
        SegmentFile {
            offset: self.offset,
            length: self.length,
            data_hashs: Vec::new(),
            keep_encrypted: self.keep_encrypted,
        }
    }
}

/// Pages that a segment of `filesize` bytes occupies: at least one.
pub open spec fn segment_pages(filesize: u64) -> int {
    if filesize == 0 {
        1
    } else {
        (filesize + 4095) / 4096
    }
}

/// The first whole page at or after byte `offset`.
pub open spec fn first_page_at(offset: u64) -> int {
    (offset + 4095) / 4096
}

/// Segment `i` of `segs` placed at page `page`.
pub open spec fn placement_at(segs: Seq<SegmentEntry>, i: int, page: int) -> SegmentPlacement {
    SegmentPlacement {
        segment_index: i as u32,
        offset: (page * 4096) as u64,
        length: segs[i].filesize,
        keep_encrypted: segs[i].flags.bits & 1 == 1,
    }
}

/// The segments of region `r` from index `i` on, placed one after another
/// from page `page`, each taking `segment_pages` pages, until the segments
/// run out (`count`) or a page no longer starts inside the region.
pub open spec fn region_placements(
    r: XvcRegion,
    segs: Seq<SegmentEntry>,
    count: int,
    i: int,
    page: int,
) -> Seq<SegmentPlacement>
    decreases count - i,
{
    if i < 0 || i >= count || page * 4096 >= r.offset + r.length {
        Seq::empty()
    } else {
        seq![placement_at(segs, i, page)] + region_placements(
            r,
            segs,
            count,
            i + 1,
            page + segment_pages(segs[i].filesize),
        )
    }
}

/// The placements of all regions in order; each region places its segments
/// from its first segment index, starting at the first whole page of the
/// region.
pub open spec fn segment_placements(
    regions: Seq<XvcRegion>,
    segs: Seq<SegmentEntry>,
    count: int,
) -> Seq<SegmentPlacement>
    decreases regions.len(),
{
    if regions.len() == 0 {
        Seq::empty()
    } else {
        let r = regions.last();
        segment_placements(regions.drop_last(), segs, count) + region_placements(
            r,
            segs,
            count,
            r.first_segment_index as int,
            first_page_at(r.offset),
        )
    }
}

/// The end of every region that places segments fits in a `u64`.
pub open spec fn placing_regions_fit(regions: Seq<XvcRegion>, count: int) -> bool {
    forall|j: int|
        0 <= j < regions.len() && #[trigger] regions[j].first_segment_index < count
            ==> regions[j].offset + regions[j].length <= u64::MAX
}

/// Places the segments of the segment metadata in the encrypted regions:
/// each region takes segments from its first segment index on, page after
/// page from its first whole page, until a segment would start past the
/// region's end.
pub fn place_segments(
    regions: &[XvcRegion],
    segments: &[SegmentEntry],
    segment_count: u32,
) -> (out: Vec<SegmentPlacement>)
    requires
        segment_count <= segments@.len(),
        placing_regions_fit(regions@, segment_count as int),
    ensures
        out@ == segment_placements(regions@, segments@, segment_count as int),
{
    let mut out: Vec<SegmentPlacement> = Vec::new();
    let mut k: usize = 0;
    assert(regions@.take(0) =~= Seq::<XvcRegion>::empty());
    while k < regions.len()
        invariant
            k <= regions@.len(),
            segment_count <= segments@.len(),
            placing_regions_fit(regions@, segment_count as int),
            out@ == segment_placements(regions@.take(k as int), segments@, segment_count as int),
        decreases regions@.len() - k,
    {
        let section = regions[k];
        assert(regions@.take(k + 1).drop_last() =~= regions@.take(k as int));
        assert(regions@.take(k + 1).last() == section);
        let ghost total = segment_placements(
            regions@.take(k + 1),
            segments@,
            segment_count as int,
        );
        let mut segment_no = section.first_segment_index;
        let mut page_offset = section.offset / 4096 + if section.offset % 4096 == 0 {
            0
        } else {
            1
        };
        assert(page_offset == first_page_at(section.offset)) by (nonlinear_arith)
            requires
                page_offset == section.offset / 4096 + if section.offset % 4096 == 0 {
                    0int
                } else {
                    1int
                },
        ;
        assert(total == out@ + region_placements(
            section,
            segments@,
            segment_count as int,
            segment_no as int,
            page_offset as int,
        ));
        if segment_no >= segment_count {
            assert(out@ + Seq::<SegmentPlacement>::empty() =~= out@);
        } else {
            let end = section.offset + section.length;
            while segment_no < segment_count
                invariant
                    segment_count <= segments@.len(),
                    end == section.offset + section.length,
                    page_offset <= 0x20_0000_0000_0000,
                    total == out@ + region_placements(
                        section,
                        segments@,
                        segment_count as int,
                        segment_no as int,
                        page_offset as int,
                    ),
                ensures
                    total == out@,
                decreases segment_count - segment_no,
            {
                let segment = segments[segment_no as usize];
                let page_length = if segment.filesize == 0 {
                    1
                } else {
                    segment.filesize / 4096 + if segment.filesize % 4096 == 0 {
                        0
                    } else {
                        1
                    }
                };
                assert(page_length == segment_pages(segment.filesize)) by (nonlinear_arith)
                    requires
                        page_length == if segment.filesize == 0 {
                            1int
                        } else {
                            segment.filesize / 4096 + if segment.filesize % 4096 == 0 {
                                0int
                            } else {
                                1int
                            }
                        },
                ;
                let start = match page_offset.checked_mul(4096) {
                    Some(x) => x,
                    None => {
                        assert(out@ + Seq::<SegmentPlacement>::empty() =~= out@);
                        break ;
                    },
                };
                if start >= end {
                    assert(out@ + Seq::<SegmentPlacement>::empty() =~= out@);
                    break ;
                }
                let placement = SegmentPlacement {
                    segment_index: segment_no,
                    offset: start,
                    length: segment.filesize,
                    keep_encrypted: segment.flags.contains(
                        XvdSegmentMetadataSegmentFlags::from_bits_retain(
                            XvdSegmentMetadataSegmentFlags::KEEP_ENCRYPTED_ON_DISK,
                        ),
                    ),
                };
                proof {
                    assert(placement == placement_at(segments@, segment_no as int, page_offset as int));
                    assert(out@.push(placement) + region_placements(
                        section,
                        segments@,
                        segment_count as int,
                        segment_no + 1,
                        page_offset + page_length,
                    ) =~= out@ + region_placements(
                        section,
                        segments@,
                        segment_count as int,
                        segment_no as int,
                        page_offset as int,
                    ));
                }
                out.push(placement);
                page_offset = page_offset + page_length;
                segment_no = segment_no + 1;
                if segment_no >= segment_count {
                    assert(out@ + Seq::<SegmentPlacement>::empty() =~= out@);
                }
            }
        }
        assert(out@ == total);
        k = k + 1;
    }
    assert(regions@.take(regions@.len() as int) =~= regions@);
    out
}

/// Within one region, placed segments start on page boundaries inside the
/// region, follow each other in segment order, and never overlap: each one
/// ends (in whole pages) at or before the next one starts.
pub proof fn lemma_region_placements_disjoint(
    r: XvcRegion,
    segs: Seq<SegmentEntry>,
    count: int,
    i: int,
    page: int,
)
    requires
        count <= segs.len(),
        count <= u32::MAX,
        page >= 0,
        r.offset + r.length <= u64::MAX,
    ensures
        forall|a: int|
            0 <= a < region_placements(r, segs, count, i, page).len() ==> {
                let p = #[trigger] region_placements(r, segs, count, i, page)[a];
                &&& p.offset % 4096 == 0
                &&& page * 4096 <= p.offset < r.offset + r.length
                &&& i <= p.segment_index < count
                &&& p.length == segs[p.segment_index as int].filesize
            },
        forall|a: int, b: int|
            0 <= a < b < region_placements(r, segs, count, i, page).len() ==> {
                let p = #[trigger] region_placements(r, segs, count, i, page)[a];
                let q = #[trigger] region_placements(r, segs, count, i, page)[b];
                &&& p.segment_index < q.segment_index
                &&& p.offset + segment_pages(p.length) * 4096 <= q.offset
            },
    decreases count - i,
{
    let out = region_placements(r, segs, count, i, page);
    if !(i < 0 || i >= count || page * 4096 >= r.offset + r.length) {
        let next = page + segment_pages(segs[i].filesize);
        lemma_region_placements_disjoint(r, segs, count, i + 1, next);
        let rest = region_placements(r, segs, count, i + 1, next);
        let p0 = placement_at(segs, i, page);
        assert(out == seq![p0] + rest);
        assert(p0.offset == page * 4096);
        assert forall|a: int| 0 <= a < out.len() implies {
            let p = #[trigger] out[a];
            &&& p.offset % 4096 == 0
            &&& page * 4096 <= p.offset < r.offset + r.length
            &&& i <= p.segment_index < count
            &&& p.length == segs[p.segment_index as int].filesize
        } by {
            if a > 0 {
                assert(out[a] == rest[a - 1]);
            }
        }
        assert forall|a: int, b: int| 0 <= a < b < out.len() implies {
            let p = #[trigger] out[a];
            let q = #[trigger] out[b];
            &&& p.segment_index < q.segment_index
            &&& p.offset + segment_pages(p.length) * 4096 <= q.offset
        } by {
            assert(out[b] == rest[b - 1]);
            if a > 0 {
                assert(out[a] == rest[a - 1]);
            } else {
                assert(rest[b - 1].offset >= next * 4096);
            }
        }
    }
}

/// The byte offset of page `page`.
pub fn page_number_to_offset(page: u64) -> (offset: u64)
    requires
        page * 4096 <= u64::MAX,
    ensures
        offset == page * 4096,
{
    page * 4096
}

/// The page that holds byte `offset`.
pub fn offset_to_page_number(offset: u64) -> (page: u64)
    ensures
        page == offset / 4096,
{
    offset / 4096
}

// ---------------------------------------------------------------------------
// Layout of the image

/// Offsets of the parts of an XVD image that follow its mutable data.
#[derive(Clone, Copy, PartialEq, Eq, Structural, Debug)]
pub struct XvdLayout {
    pub hash_tree_offset: u64,
    pub user_data_offset: u64,
    pub xvc_info_offset: u64,
    pub dynamic_header_offset: u64,
    pub drive_data_offset: u64,
}

/// The parts follow each other: the hash tree after the mutable data, the
/// user data after the hash tree (which takes space only when data
/// integrity is enabled), then the XVC info, the dynamic header and the
/// drive data, each sized in pages by the header.
pub open spec fn layout_matches(
    l: XvdLayout,
    mdu_offset: u64,
    mutable_data_length: u64,
    data_integrity_enabled: bool,
    hash_tree_page_count: u64,
    user_data_page_count: u64,
    xvc_data_page_count: u64,
    dynamic_header_page_count: u64,
) -> bool {
    &&& l.hash_tree_offset == mutable_data_length + mdu_offset
    &&& l.user_data_offset == l.hash_tree_offset + if data_integrity_enabled {
        hash_tree_page_count * 4096
    } else {
        0
    }
    &&& l.xvc_info_offset == l.user_data_offset + user_data_page_count * 4096
    &&& l.dynamic_header_offset == l.xvc_info_offset + xvc_data_page_count * 4096
    &&& l.drive_data_offset == l.dynamic_header_offset + dynamic_header_page_count * 4096
}

/// The offset of the drive data, computed without bounds.
pub open spec fn layout_end(
    mdu_offset: u64,
    mutable_data_length: u64,
    data_integrity_enabled: bool,
    hash_tree_page_count: u64,
    user_data_page_count: u64,
    xvc_data_page_count: u64,
    dynamic_header_page_count: u64,
) -> int {
    mutable_data_length + mdu_offset + (if data_integrity_enabled {
        hash_tree_page_count * 4096
    } else {
        0
    }) + user_data_page_count * 4096 + xvc_data_page_count * 4096 + dynamic_header_page_count
        * 4096
}

impl XvdLayout {
    /// Lays out the parts of an image from the values its header gives.
    pub fn compute(
        mdu_offset: u64,
        mutable_data_length: u64,
        data_integrity_enabled: bool,
        hash_tree_page_count: u64,
        user_data_page_count: u64,
        xvc_data_page_count: u64,
        dynamic_header_page_count: u64,
    ) -> (l: XvdLayout)
        requires
            layout_end(
                mdu_offset,
                mutable_data_length,
                data_integrity_enabled,
                hash_tree_page_count,
                user_data_page_count,
                xvc_data_page_count,
                dynamic_header_page_count,
            ) <= u64::MAX,
        ensures
            layout_matches(
                l,
                mdu_offset,
                mutable_data_length,
                data_integrity_enabled,
                hash_tree_page_count,
                user_data_page_count,
                xvc_data_page_count,
                dynamic_header_page_count,
            ),
            l.hash_tree_offset <= l.user_data_offset <= l.xvc_info_offset
                <= l.dynamic_header_offset <= l.drive_data_offset,
    {
        let hash_tree_offset = mutable_data_length + mdu_offset;
        let hash_tree_len = if data_integrity_enabled {
            hash_tree_page_count * 4096
        } else {
            0
        };
        let user_data_offset = hash_tree_len + hash_tree_offset;
        let xvc_info_offset = user_data_page_count * 4096 + user_data_offset;
        let dynamic_header_offset = xvc_data_page_count * 4096 + xvc_info_offset;
        let drive_data_offset = dynamic_header_page_count * 4096 + dynamic_header_offset;
        XvdLayout {
            hash_tree_offset,
            user_data_offset,
            xvc_info_offset,
            dynamic_header_offset,
            drive_data_offset,
        }
    }
}

/// The region headers follow the XVC info only when the image has XVC data
/// and the info's version is at least 1.
pub fn region_headers_follow(xvc_data_length: u64, xvc_info_version: u64) -> (b: bool)
    ensures
        b == (xvc_data_length > 0 && xvc_info_version >= 1),
{
    xvc_data_length > 0 && xvc_info_version >= 1
}

/// The user data lists package files when its header's type is 0.
pub fn user_data_lists_package_files(user_data_type: u32) -> (b: bool)
    ensures
        b == (user_data_type == 0),
{
    user_data_type == 0
}

/// The regions of `regions` that are encrypted, in order.
pub open spec fn encrypted_only(regions: Seq<XvcRegion>) -> Seq<XvcRegion>
    decreases regions.len(),
{
    if regions.len() == 0 {
        Seq::empty()
    } else if regions.last().encrypted {
        encrypted_only(regions.drop_last()).push(regions.last())
    } else {
        encrypted_only(regions.drop_last())
    }
}

/// Keeps the encrypted regions, in order.
pub fn filter_encrypted(regions: &[XvcRegion]) -> (out: Vec<XvcRegion>)
    ensures
        out@ == encrypted_only(regions@),
{
    let mut out: Vec<XvcRegion> = Vec::new();
    let mut i: usize = 0;
    assert(regions@.take(0) =~= Seq::<XvcRegion>::empty());
    while i < regions.len()
        invariant
            i <= regions@.len(),
            out@ == encrypted_only(regions@.take(i as int)),
        decreases regions@.len() - i,
    {
        assert(regions@.take(i + 1).drop_last() =~= regions@.take(i as int));
        if regions[i].encrypted {
            out.push(regions[i]);
        }
        i = i + 1;
    }
    assert(regions@.take(regions@.len() as int) =~= regions@);
    out
}

/// A parsed XVD image: what its header and region headers say about where
/// things lie.
pub struct XvdFile {
    vduid: Guid,
    drive_size: u64,
    drive_data_offset: u64,
    encryption_key_ids: Vec<Guid>,
    encrypted_regions: Vec<XvcRegion>,
    user_data_offset: u64,
}

impl XvdFile {
    /// The image's content id.
    pub closed spec fn vduid_spec(&self) -> Guid {
        self.vduid
    }

    /// The size of the drive in bytes.
    pub closed spec fn drive_size_spec(&self) -> u64 {
        self.drive_size
    }

    /// The offset of the drive data.
    pub closed spec fn drive_data_offset_spec(&self) -> u64 {
        self.drive_data_offset
    }

    /// The offset of the user data.
    pub closed spec fn user_data_offset_spec(&self) -> u64 {
        self.user_data_offset
    }

    /// The encryption key ids of the XVC info.
    pub closed spec fn key_ids_spec(&self) -> Seq<Guid> {
        self.encryption_key_ids@
    }

    /// The encrypted regions, in the order of their headers.
    pub closed spec fn encrypted_regions_spec(&self) -> Seq<XvcRegion> {
        self.encrypted_regions@
    }

    /// Assembles an image from its header values: the XVC info's key ids
    /// count only when the image has XVC data, and its region headers only
    /// when, in addition, the info's version is at least 1 (see
    /// `region_headers_follow`); of the regions, only the encrypted ones are
    /// kept.
    pub fn from_header(
        vduid: Guid,
        drive_size: u64,
        layout: XvdLayout,
        xvc_data_length: u64,
        xvc_info_version: u64,
        encryption_key_ids: Vec<Guid>,
        regions: &[XvcRegion],
    ) -> (f: XvdFile)
        ensures
            f.vduid_spec() == vduid,
            f.drive_size_spec() == drive_size,
            f.drive_data_offset_spec() == layout.drive_data_offset,
            f.user_data_offset_spec() == layout.user_data_offset,
            f.key_ids_spec() == if xvc_data_length > 0 {
                encryption_key_ids@
            } else {
                Seq::<Guid>::empty()
            },
            f.encrypted_regions_spec() == if xvc_data_length > 0 && xvc_info_version >= 1 {
                encrypted_only(regions@)
            } else {
                Seq::<XvcRegion>::empty()
            },
    {
        let key_ids = if xvc_data_length > 0 {
            encryption_key_ids
        } else {
            Vec::new()
        };
        let no_regions: Vec<XvcRegion> = Vec::new();
        if region_headers_follow(xvc_data_length, xvc_info_version) {
            Self::from_parts(vduid, drive_size, layout, key_ids, regions)
        } else {
            assert(encrypted_only(no_regions@) == Seq::<XvcRegion>::empty());
            Self::from_parts(vduid, drive_size, layout, key_ids, no_regions.as_slice())
        }
    }

    /// Assembles an image from its header values, its layout, the key ids
    /// of its XVC info and its region headers; only the encrypted regions
    /// are kept.
    pub fn from_parts(
        vduid: Guid,
        drive_size: u64,
        layout: XvdLayout,
        encryption_key_ids: Vec<Guid>,
        regions: &[XvcRegion],
    ) -> (f: XvdFile)
        ensures
            f.vduid_spec() == vduid,
            f.drive_size_spec() == drive_size,
            f.drive_data_offset_spec() == layout.drive_data_offset,
            f.user_data_offset_spec() == layout.user_data_offset,
            f.key_ids_spec() == encryption_key_ids@,
            f.encrypted_regions_spec() == encrypted_only(regions@),
    {
        XvdFile {
            vduid,
            drive_size,
            drive_data_offset: layout.drive_data_offset,
            encryption_key_ids,
            encrypted_regions: filter_encrypted(regions),
            user_data_offset: layout.user_data_offset,
        }
    }

    /// The image's content id.
    pub fn content_id(&self) -> (g: Guid)
        ensures
            g == self.vduid_spec(),
    {
        self.vduid
    }

    /// The size of the drive in bytes.
    pub fn drive_size(&self) -> (n: u64)
        ensures
            n == self.drive_size_spec(),
    {
        self.drive_size
    }

    /// The offset of the drive data.
    pub fn drive_data_offset(&self) -> (n: u64)
        ensures
            n == self.drive_data_offset_spec(),
    {
        self.drive_data_offset
    }

    /// The offset of the user data.
    pub fn user_data_offset(&self) -> (n: u64)
        ensures
            n == self.user_data_offset_spec(),
    {
        self.user_data_offset
    }

    /// The encryption key ids of the XVC info.
    pub fn encryption_key_ids(&self) -> (k: &[Guid])
        ensures
            k@ == self.key_ids_spec(),
    {
        self.encryption_key_ids.as_slice()
    }

    /// The encrypted regions.
    pub fn encrypted_regions(&self) -> (r: &[XvcRegion])
        ensures
            r@ == self.encrypted_regions_spec(),
    {
        self.encrypted_regions.as_slice()
    }

    /// The length of the unencrypted prefix of `[start, start + len)`; see
    /// `plain_prefix_len`.
    pub fn non_encrypted_prefix_len(&self, start: u64, len: u64) -> (n: u64)
        ensures
            n == plain_prefix_len(self.encrypted_regions_spec(), start, len),
    {
        non_encrypted_prefix_len(self.encrypted_regions.as_slice(), start, len)
    }

    /// The length of the unencrypted prefix of the drive.
    pub fn drive_plain_len(&self) -> (n: u64)
        ensures
            n == plain_prefix_len(
                self.encrypted_regions_spec(),
                self.drive_data_offset_spec(),
                self.drive_size_spec(),
            ),
    {
        self.non_encrypted_prefix_len(self.drive_data_offset, self.drive_size)
    }

    /// Places the segments of the segment metadata in the encrypted regions;
    /// see `place_segments`.
    pub fn place_segments(&self, segments: &[SegmentEntry], segment_count: u32) -> (out: Vec<
        SegmentPlacement,
    >)
        requires
            segment_count <= segments@.len(),
            placing_regions_fit(self.encrypted_regions_spec(), segment_count as int),
        ensures
            out@ == segment_placements(
                self.encrypted_regions_spec(),
                segments@,
                segment_count as int,
            ),
    {
        place_segments(self.encrypted_regions.as_slice(), segments, segment_count)
    }

    /// The offset of entry `k` of the user package file list: the list's
    /// header follows the user-data header (`header_length` bytes), and the
    /// entries of `entry_size` bytes follow the list's header
    /// (`files_header_size` bytes).
    pub fn package_entry_offset(
        &self,
        header_length: u32,
        files_header_size: u64,
        entry_size: u64,
        k: u64,
    ) -> (n: u64)
        requires
            self.user_data_offset_spec() + header_length + files_header_size + k * entry_size
                <= u64::MAX,
        ensures
            n == self.user_data_offset_spec() + header_length + files_header_size + k * entry_size,
    {
        assert(k * entry_size <= u64::MAX) by (nonlinear_arith)
            requires
                self.user_data_offset_spec() + header_length + files_header_size + k * entry_size
                    <= u64::MAX,
                k >= 0,
                entry_size >= 0,
        ;
        self.user_data_offset + header_length as u64 + files_header_size + k * entry_size
    }

    /// The offsets of the `count` entries of the user package file list,
    /// one after another; see `package_entry_offset`.
    pub fn package_entry_offsets(
        &self,
        header_length: u32,
        files_header_size: u64,
        entry_size: u64,
        count: u32,
    ) -> (v: Vec<u64>)
        requires
            self.user_data_offset_spec() + header_length + files_header_size + count * entry_size
                <= u64::MAX,
        ensures
            v@.len() == count,
            forall|k: int|
                0 <= k < count ==> #[trigger] v@[k] == self.user_data_offset_spec() + header_length
                    + files_header_size + k * entry_size,
    {
        let base = self.user_data_offset + header_length as u64 + files_header_size;
        let mut off = base;
        let mut v: Vec<u64> = Vec::new();
        let mut k: u32 = 0;
        while k < count
            invariant
                k <= count,
                base == self.user_data_offset_spec() + header_length + files_header_size,
                base + count * entry_size <= u64::MAX,
                off == base + k * entry_size,
                v@.len() == k,
                forall|j: int| 0 <= j < k ==> #[trigger] v@[j] == base + j * entry_size,
            decreases count - k,
        {
            v.push(off);
            assert(off + entry_size <= base + count * entry_size) by (nonlinear_arith)
                requires
                    off == base + k * entry_size,
                    k < count,
                    entry_size >= 0,
            ;
            assert(off + entry_size == base + (k + 1) * entry_size) by (nonlinear_arith)
                requires
                    off == base + k * entry_size,
            ;
            off = off + entry_size;
            k = k + 1;
        }
        v
    }

    /// The user package file described by a package file entry: it lies
    /// `entry_offset` bytes after the user-data header, which is
    /// `header_size` bytes long, and is `entry_size` bytes long.
    pub fn user_package_file(&self, header_size: u64, entry_offset: u32, entry_size: u32) -> (f:
        UserPackageFile)
        requires
            self.user_data_offset_spec() + header_size + entry_offset <= u64::MAX,
        ensures
            f.offset == self.user_data_offset_spec() + header_size + entry_offset,
            f.length == entry_size,
    {
        UserPackageFile {
            offset: self.user_data_offset + header_size + entry_offset as u64,
            length: entry_size as u64,
        }
    }
}

// ---------------------------------------------------------------------------
// Extracting a file

/// How the pages of a file are taken out of the image.
#[derive(Clone, Copy, PartialEq, Eq, Structural, Debug)]
pub enum ExtractionPlan {
    /// The file is empty: nothing is read or written.
    Empty,
    /// The file lies in the encrypted region with this index and is to be
    /// decrypted, which this library does not do.
    Decrypt { region_index: usize },
    /// The file's pages are copied as they are stored.
    Copy { page_count: u64, keep_encrypted: bool },
}

/// Region `r` holds the byte at `offset`.
pub open spec fn region_holds(r: XvcRegion, offset: u64) -> bool {
    r.offset <= offset < r.offset + r.length
}

/// The index of the first region of `regions` that holds the byte at `offset`.
pub open spec fn first_region_holding(regions: Seq<XvcRegion>, offset: u64) -> Option<int> {
    if exists|j: int| 0 <= j < regions.len() && region_holds(regions[j], offset) {
        Some(
            choose|j: int|
                0 <= j < regions.len() && region_holds(regions[j], offset) && forall|i: int|
                    0 <= i < j ==> !region_holds(regions[i], offset),
        )
    } else {
        None
    }
}

/// Every region that the search for `offset` looks at has an end that fits
/// in a `u64`: those that start at or before `offset`, up to the first that
/// holds it.
pub open spec fn search_fits(regions: Seq<XvcRegion>, offset: u64) -> bool {
    forall|j: int|
        0 <= j < regions.len() && #[trigger] regions[j].offset <= offset && (forall|i: int|
            0 <= i < j ==> !region_holds(regions[i], offset)) ==> regions[j].offset
            + regions[j].length <= u64::MAX
}

/// The number of pages that a file of `length` bytes spans.
pub open spec fn pages_spanned(length: u64) -> int {
    (length + 4095) / 4096
}

impl XvdFile {
    /// Decides how to take `sfile` out of the image: an empty file needs
    /// nothing; a file inside an encrypted region is decrypted unless it is
    /// kept encrypted (and `decrypt_all` is not set); any other file is
    /// copied page by page.
    pub fn extraction_plan(&self, sfile: &SegmentFile, decrypt_all: bool) -> (p: ExtractionPlan)
        requires
            sfile.length > 0 ==> search_fits(self.encrypted_regions_spec(), sfile.offset),
        ensures
            sfile.length == 0 ==> p == ExtractionPlan::Empty,
            sfile.length > 0 ==> match first_region_holding(
                self.encrypted_regions_spec(),
                sfile.offset,
            ) {
                Some(j) => if !sfile.keep_encrypted || decrypt_all {
                    p == ExtractionPlan::Decrypt { region_index: j as usize }
                } else {
                    p == ExtractionPlan::Copy {
                        page_count: pages_spanned(sfile.length) as u64,
                        keep_encrypted: sfile.keep_encrypted,
                    }
                },
                None => p == ExtractionPlan::Copy {
                    page_count: pages_spanned(sfile.length) as u64,
                    keep_encrypted: sfile.keep_encrypted,
                },
            },
    {
        if sfile.length == 0 {
            return ExtractionPlan::Empty;
        }
        let regions = self.encrypted_regions.as_slice();
        assert(search_fits(regions@, sfile.offset));
        let mut i: usize = 0;
        let mut found: Option<usize> = None;
        while i < regions.len()
            invariant_except_break
                found is None,
            invariant
                i <= regions@.len(),
                regions@ == self.encrypted_regions_spec(),
                search_fits(regions@, sfile.offset),
                forall|k: int| 0 <= k < i ==> !region_holds(regions@[k], sfile.offset),
            ensures
                match found {
                    Some(j) => j < regions@.len() && region_holds(regions@[j as int], sfile.offset)
                        && forall|k: int| 0 <= k < j ==> !region_holds(regions@[k], sfile.offset),
                    None => forall|k: int|
                        0 <= k < regions@.len() ==> !region_holds(regions@[k], sfile.offset),
                },
            decreases regions@.len() - i,
        {
            let r = regions[i];
            if sfile.offset >= r.offset {
                assert(regions@[i as int].offset <= sfile.offset);
                if sfile.offset < r.offset + r.length {
                    found = Some(i);
                    break ;
                }
            }
            i = i + 1;
        }
        let page_count = sfile.length / 4096 + if sfile.length % 4096 == 0 {
            0
        } else {
            1
        };
        assert(page_count == pages_spanned(sfile.length)) by (nonlinear_arith)
            requires
                page_count == sfile.length / 4096 + if sfile.length % 4096 == 0 {
                    0int
                } else {
                    1int
                },
        ;
        proof {
            let rs = self.encrypted_regions_spec();
            match found {
                Some(j) => {
                    let c = choose|x: int|
                        0 <= x < rs.len() && region_holds(rs[x], sfile.offset) && forall|i: int|
                            0 <= i < x ==> !region_holds(rs[i], sfile.offset);
                    assert(0 <= j < rs.len() && region_holds(rs[j as int], sfile.offset));
                    if c < j {
                    } else if c > j {
                    }
                    assert(c == j);
                },
                None => {},
            }
        }
        match found {
            Some(j) => {
                if !sfile.keep_encrypted || decrypt_all {
                    return ExtractionPlan::Decrypt { region_index: j };
                }
            },
            None => {},
        }
        ExtractionPlan::Copy { page_count, keep_encrypted: sfile.keep_encrypted }
    }
}

/// The progress reported before copying page `k` of a file of `length`
/// bytes, and the number of bytes of that page written out: the whole page
/// for a file kept encrypted, otherwise only the file's bytes in the page.
pub open spec fn page_copy_step(length: u64, keep_encrypted: bool, k: int) -> (int, int) {
    let done = if k * 4096 < length {
        k * 4096
    } else {
        length as int
    };
    let rest = length - done;
    (done, if keep_encrypted {
        4096
    } else if rest < 4096 {
        rest
    } else {
        4096
    })
}

/// The bytes written for the first `n` pages of a file of `length` bytes
/// that is not kept encrypted.
pub open spec fn written_total(length: u64, n: int) -> int
    decreases n,
{
    if n <= 0 {
        0
    } else {
        written_total(length, n - 1) + page_copy_step(length, false, n - 1).1
    }
}

proof fn lemma_written_prefix(length: u64, n: int)
    requires
        0 <= n <= pages_spanned(length),
    ensures
        written_total(length, n) == if length < 4096 * n {
            length as int
        } else {
            4096 * n
        },
    decreases n,
{
    if n > 0 {
        lemma_written_prefix(length, n - 1);
        assert(4096 * (n - 1) < length) by (nonlinear_arith)
            requires
                n - 1 < (length + 4095) / 4096,
        ;
    }
}

/// Copying a file that is not kept encrypted writes every byte of it and
/// nothing more: page `k` gets at least one and at most 4096 bytes, and the
/// pages' bytes add up to the file's length.
pub proof fn lemma_copy_writes_whole_file(length: u64)
    ensures
        written_total(length, pages_spanned(length)) == length,
        forall|k: int|
            0 <= k < pages_spanned(length) ==> 1 <= #[trigger] page_copy_step(length, false, k).1
                <= 4096,
{
    let n = pages_spanned(length);
    assert(n >= 0 && length <= 4096 * n) by (nonlinear_arith)
        requires
            n == (length + 4095) / 4096,
    ;
    lemma_written_prefix(length, n);
    assert forall|k: int| 0 <= k < pages_spanned(length) implies 1
        <= #[trigger] page_copy_step(length, false, k).1 <= 4096 by {
        assert(4096 * k < length) by (nonlinear_arith)
            requires
                k < (length + 4095) / 4096,
        ;
    }
}

/// The progress to report before copying page `k` of a file of `length`
/// bytes, and how many bytes of the page to write; see `page_copy_step`.
pub fn page_copy(length: u64, keep_encrypted: bool, k: u64) -> (r: (u64, usize))
    requires
        k < pages_spanned(length),
    ensures
        (r.0 as int, r.1 as int) == page_copy_step(length, keep_encrypted, k as int),
        r.0 == k * 4096,
        !keep_encrypted ==> r.0 + r.1 == if length < 4096 * (k + 1) {
            length as int
        } else {
            4096 * (k + 1)
        },
        keep_encrypted ==> r.1 == 4096,
{
    assert(k * 4096 < length) by (nonlinear_arith)
        requires
            k < (length + 4095) / 4096,
    ;
    let offset_in_file = k * 4096;
    let done = if offset_in_file < length {
        offset_in_file
    } else {
        length
    };
    let rest = length - done;
    let to_write: usize = if keep_encrypted {
        4096
    } else if rest < 4096 {
        rest as usize
    } else {
        4096
    };
    (done, to_write)
}

// ---------------------------------------------------------------------------
// Files found in the NTFS volume

/// What the NTFS walk reports of one data stream.
pub struct NtfsStreamReport {
    pub path: String,
    pub resident_data: bool,
    /// The start of each data run, when the run is allocated.
    pub data_run_starts: Vec<Option<u64>>,
    pub value_length: u64,
}

/// A file chosen from the NTFS volume, under its name in the package.
pub struct NamedSegmentFile {
    pub name: String,
    pub file: SegmentFile,
}

/// The data start of a report that names a file worth listing: not a system
/// file (`$...`), not an alternate stream (`:`), not resident, in exactly
/// one allocated run.
pub open spec fn listed_start(r: NtfsStreamReport) -> Option<u64> {
    let p = r.path@;
    if (p.len() > 0 && p[0] == '$') || p.contains(':') || r.resident_data
        || r.data_run_starts@.len() != 1 {
        None
    } else {
        r.data_run_starts@[0]
    }
}

/// A chosen file: its name (with `/` turned into `\`), offset, length, and
/// whether it stays encrypted.
pub open spec fn ntfs_file_view(
    r: NtfsStreamReport,
    start: u64,
    partition_offset: u64,
    only_plain: bool,
) -> (Seq<char>, int, u64, bool) {
    (
        replace_char(r.path@, '/', '\\'),
        partition_offset + start,
        r.value_length,
        !only_plain && ends_with_lower(r.path@, seq!['.', 'e', 'x', 'e']),
    )
}

/// The files chosen from `reports`, in order: every listed stream, except
/// that with `only_plain` those starting at or past `plain_end` are left
/// out.
pub open spec fn ntfs_selection(
    reports: Seq<NtfsStreamReport>,
    partition_offset: u64,
    plain_end: u64,
    only_plain: bool,
) -> Seq<(Seq<char>, int, u64, bool)>
    decreases reports.len(),
{
    if reports.len() == 0 {
        Seq::empty()
    } else {
        let before = ntfs_selection(reports.drop_last(), partition_offset, plain_end, only_plain);
        let r = reports.last();
        match listed_start(r) {
            Some(start) => if only_plain && partition_offset + start >= plain_end {
                before
            } else {
                before.push(ntfs_file_view(r, start, partition_offset, only_plain))
            },
            None => before,
        }
    }
}

/// Whether the NTFS volume contributes only its unencrypted files: so it
/// does when the segment metadata already named some files.
pub fn ntfs_only_plain(segment_files: &[NamedSegmentFile]) -> (b: bool)
    ensures
        b == (segment_files@.len() > 0),
{
    segment_files.len() > 0
}

/// The files of a package: those of the segment metadata, then those of the
/// NTFS volume, which win over earlier files of the same name when the list
/// is collected into a map.
pub fn merge_package_files(
    segment_files: Vec<NamedSegmentFile>,
    ntfs_files: Vec<NamedSegmentFile>,
) -> (v: Vec<NamedSegmentFile>)
    ensures
        v@ == segment_files@ + ntfs_files@,
{
    let mut v = segment_files;
    let mut rest = ntfs_files;
    v.append(&mut rest);
    v
}

/// The view of a chosen file.
pub open spec fn named_file_view(f: NamedSegmentFile) -> (Seq<char>, int, u64, bool) {
    (f.name@, f.file.offset as int, f.file.length, f.file.keep_encrypted)
}

/// Every listed stream starts at an offset that fits in a `u64` once the
/// partition offset is added.
pub open spec fn listed_starts_fit(reports: Seq<NtfsStreamReport>, partition_offset: u64) -> bool {
    forall|i: int|
        0 <= i < reports.len() ==> (#[trigger] listed_start(reports[i]) matches Some(start)
            ==> partition_offset + start <= u64::MAX)
}

/// Chooses the files of the NTFS volume to list; see `ntfs_selection`.
pub fn select_ntfs_files(
    reports: &[NtfsStreamReport],
    partition_offset: u64,
    plain_end: u64,
    only_plain: bool,
) -> (out: Vec<NamedSegmentFile>)
    requires
        listed_starts_fit(reports@, partition_offset),
    ensures
        out@.len() == ntfs_selection(reports@, partition_offset, plain_end, only_plain).len(),
        forall|k: int|
            0 <= k < out@.len() ==> named_file_view(#[trigger] out@[k]) == ntfs_selection(
                reports@,
                partition_offset,
                plain_end,
                only_plain,
            )[k],
        forall|k: int| 0 <= k < out@.len() ==> (#[trigger] out@[k]).file.data_hashs@.len() == 0,
{
    let mut out: Vec<NamedSegmentFile> = Vec::new();
    let mut i: usize = 0;
    let exe = ['.', 'e', 'x', 'e'];
    assert(exe@ =~= seq!['.', 'e', 'x', 'e']);
    assert(reports@.take(0) =~= Seq::<NtfsStreamReport>::empty());
    while i < reports.len()
        invariant
            i <= reports@.len(),
            exe@ == seq!['.', 'e', 'x', 'e'],
            listed_starts_fit(reports@, partition_offset),
            out@.len() == ntfs_selection(
                reports@.take(i as int),
                partition_offset,
                plain_end,
                only_plain,
            ).len(),
            forall|k: int|
                0 <= k < out@.len() ==> named_file_view(#[trigger] out@[k]) == ntfs_selection(
                    reports@.take(i as int),
                    partition_offset,
                    plain_end,
                    only_plain,
                )[k],
            forall|k: int| 0 <= k < out@.len() ==> (#[trigger] out@[k]).file.data_hashs@.len() == 0,
        decreases reports@.len() - i,
    {
        let report = &reports[i];
        assert(reports@.take(i + 1).drop_last() =~= reports@.take(i as int));
        assert(reports@.take(i + 1).last() == *report);
        let ghost prev = ntfs_selection(
            reports@.take(i as int),
            partition_offset,
            plain_end,
            only_plain,
        );
        let path = chars_of(report.path.as_str());
        let listed = if path.len() > 0 && path[0] == '$' {
            false
        } else if contains_char(path.as_slice(), ':') {
            false
        } else if report.resident_data || report.data_run_starts.len() != 1 {
            false
        } else {
            true
        };
        if listed {
            match report.data_run_starts[0] {
                Some(start) => {
                    assert(listed_start(reports@[i as int]) == Some(start));
                    let offset = partition_offset + start;
                    if !(only_plain && offset >= plain_end) {
                        let name_chars = replace_chars(path.as_slice(), '/', '\\');
                        let name = string_from_chars(name_chars.as_slice());
                        let keep_encrypted = !only_plain && ends_with_ignore_ascii_case(
                            path.as_slice(),
                            exe.as_slice(),
                        );
                        let f = NamedSegmentFile {
                            name,
                            file: SegmentFile {
                                offset,
                                length: report.value_length,
                                data_hashs: Vec::new(),
                                keep_encrypted,
                            },
                        };
                        out.push(f);
                        assert(named_file_view(out@[out@.len() - 1]) == ntfs_file_view(
                            *report,
                            start,
                            partition_offset,
                            only_plain,
                        ));
                    }
                },
                None => {},
            }
        }
        i = i + 1;
    }
    assert(reports@.take(reports@.len() as int) =~= reports@);
    out
}

/// With `only_plain`, every chosen file starts before the end of the
/// unencrypted prefix and none is kept encrypted.
pub proof fn lemma_plain_selection_is_plain(
    reports: Seq<NtfsStreamReport>,
    partition_offset: u64,
    plain_end: u64,
)
    ensures
        forall|k: int|
            0 <= k < ntfs_selection(reports, partition_offset, plain_end, true).len() ==> {
                let f = #[trigger] ntfs_selection(reports, partition_offset, plain_end, true)[k];
                f.1 < plain_end && !f.3
            },
    decreases reports.len(),
{
    if reports.len() > 0 {
        lemma_plain_selection_is_plain(reports.drop_last(), partition_offset, plain_end);
        let before = ntfs_selection(reports.drop_last(), partition_offset, plain_end, true);
        let all = ntfs_selection(reports, partition_offset, plain_end, true);
        assert forall|k: int| 0 <= k < all.len() implies {
            let f = #[trigger] all[k];
            f.1 < plain_end && !f.3
        } by {
            if k < before.len() {
                assert(all[k] == before[k]);
            }
        }
    }
}

} // verus!
