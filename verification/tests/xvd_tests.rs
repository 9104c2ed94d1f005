use msixvc::flags::{XvcRegionFlags, XvdSegmentMetadataSegmentFlags};
use msixvc::guid::Guid;
use msixvc::xvd::{
    filter_encrypted, non_encrypted_prefix_len, offset_to_page_number, page_copy,
    page_number_to_offset, place_segments, select_ntfs_files, ExtractionPlan, NtfsStreamReport,
    SegmentEntry, SegmentFile, SegmentPlacement, XvcRegion, XvdFile, XvdLayout,
    region_headers_follow, user_data_lists_package_files, merge_package_files, ntfs_only_plain,
    NamedSegmentFile,
};

fn enc(offset: u64, length: u64, first: u32) -> XvcRegion {
    XvcRegion {
        flags: XvcRegionFlags::from_bits_retain(0),
        encrypted: true,
        offset,
        length,
        first_segment_index: first,
    }
}

fn seg(filesize: u64, keep: bool) -> SegmentEntry {
    SegmentEntry {
        flags: XvdSegmentMetadataSegmentFlags::from_bits_retain(if keep { 1 } else { 0 }),
        path_offset: 0,
        path_length: 0,
        filesize,
    }
}

#[test]
fn pages_and_offsets() {
    assert_eq!(page_number_to_offset(3), 12288);
    assert_eq!(offset_to_page_number(12287), 2);
}

#[test]
fn layout_follows_header_sizes() {
    let l = XvdLayout::compute(0x2000, 0x1000, true, 2, 3, 4, 5);
    assert_eq!(l.hash_tree_offset, 0x3000);
    assert_eq!(l.user_data_offset, 0x3000 + 2 * 4096);
    assert_eq!(l.xvc_info_offset, l.user_data_offset + 3 * 4096);
    assert_eq!(l.dynamic_header_offset, l.xvc_info_offset + 4 * 4096);
    assert_eq!(l.drive_data_offset, l.dynamic_header_offset + 5 * 4096);
    let no_integrity = XvdLayout::compute(0x2000, 0x1000, false, 2, 3, 4, 5);
    assert_eq!(no_integrity.user_data_offset, 0x3000);
}

#[test]
fn only_encrypted_regions_are_kept() {
    let mut plain = enc(0, 10, 0);
    plain.encrypted = false;
    let kept = filter_encrypted(&[plain, enc(10, 20, 1), enc(30, 5, 2)]);
    assert_eq!(kept, vec![enc(10, 20, 1), enc(30, 5, 2)]);
}

#[test]
fn prefix_before_encryption() {
    let regions = [enc(1000, 500, 0), enc(4000, 100, 0)];
    // the range starts before the first region: the prefix stops at it
    assert_eq!(non_encrypted_prefix_len(&regions, 0, 5000), 1000);
    // the range starts inside a region: no prefix
    assert_eq!(non_encrypted_prefix_len(&regions, 1200, 100), 0);
    // the range lies between regions
    assert_eq!(non_encrypted_prefix_len(&regions, 1500, 2500), 2500);
    assert_eq!(non_encrypted_prefix_len(&regions, 1500, 3000), 2500);
    // only the first region in list order that meets the range counts
    let unsorted = [enc(4000, 100, 0), enc(1000, 500, 0)];
    assert_eq!(non_encrypted_prefix_len(&unsorted, 0, 5000), 4000);
    assert_eq!(non_encrypted_prefix_len(&[], 7, 9), 9);
}

#[test]
fn segments_fill_their_region_page_by_page() {
    // a region of 5 pages starting 100 bytes into page 1
    let regions = [enc(4196, 5 * 4096, 1)];
    let short = [enc(4196, 5 * 4096 - 101, 1)];
    assert_eq!(place_segments(&short, &[seg(1, false), seg(0, false), seg(4097, true), seg(10, false), seg(10, false)], 5).len(), 3);
    let segs = [seg(1, false), seg(0, false), seg(4097, true), seg(10, false), seg(10, false)];
    let placed = place_segments(&regions, &segs, 5);
    assert_eq!(
        placed,
        vec![
            SegmentPlacement { segment_index: 1, offset: 2 * 4096, length: 0, keep_encrypted: false },
            SegmentPlacement { segment_index: 2, offset: 3 * 4096, length: 4097, keep_encrypted: true },
            SegmentPlacement { segment_index: 3, offset: 5 * 4096, length: 10, keep_encrypted: false },
            // page 6 still starts before the region's end (4196 + 5 pages)
            SegmentPlacement { segment_index: 4, offset: 6 * 4096, length: 10, keep_encrypted: false },
        ]
    );
    let f = placed[1].to_segment_file();
    assert_eq!((f.offset, f.length, f.keep_encrypted, f.data_hashs.len()), (3 * 4096, 4097, true, 0));
    // the segment count bounds the walk
    assert_eq!(place_segments(&regions, &segs, 2).len(), 1);
    assert!(place_segments(&regions, &segs, 1).is_empty());
}

#[test]
fn segments_of_several_regions() {
    let regions = [enc(0, 4096, 0), enc(8192, 8192, 1)];
    let segs = [seg(100, false), seg(100, false), seg(100, false)];
    let placed = place_segments(&regions, &segs, 3);
    let offsets: Vec<(u32, u64)> = placed.iter().map(|p| (p.segment_index, p.offset)).collect();
    assert_eq!(offsets, vec![(0, 0), (1, 8192), (2, 12288)]);
}

fn file(regions: &[XvcRegion]) -> XvdFile {
    let layout = XvdLayout::compute(0, 0x1000, false, 0, 1, 0, 0);
    XvdFile::from_parts(Guid { bytes: [7; 16] }, 1 << 20, layout, vec![Guid { bytes: [1; 16] }], regions)
}

#[test]
fn xvd_file_parts() {
    let mut plain = enc(0, 10, 0);
    plain.encrypted = false;
    let f = file(&[plain, enc(0x3000, 0x1000, 0)]);
    assert_eq!(f.content_id().bytes, [7; 16]);
    assert_eq!(f.user_data_offset(), 0x1000);
    assert_eq!(f.drive_data_offset(), 0x2000);
    assert_eq!(f.drive_size(), 1 << 20);
    assert_eq!(f.encrypted_regions(), &[enc(0x3000, 0x1000, 0)]);
    assert_eq!(f.encryption_key_ids().len(), 1);
    assert_eq!(f.drive_plain_len(), 0x1000);
    let u = f.user_package_file(0x24, 0x100, 77);
    assert_eq!((u.offset, u.length), (0x1000 + 0x24 + 0x100, 77));
}

fn sfile(offset: u64, length: u64, keep: bool) -> SegmentFile {
    SegmentFile { offset, length, data_hashs: vec![], keep_encrypted: keep }
}

#[test]
fn extraction_plans() {
    let f = file(&[enc(0x3000, 0x1000, 0)]);
    assert_eq!(f.extraction_plan(&sfile(0x3000, 0, false), false), ExtractionPlan::Empty);
    assert_eq!(
        f.extraction_plan(&sfile(0x3100, 10, false), false),
        ExtractionPlan::Decrypt { region_index: 0 }
    );
    assert_eq!(
        f.extraction_plan(&sfile(0x3100, 5000, true), false),
        ExtractionPlan::Copy { page_count: 2, keep_encrypted: true }
    );
    assert_eq!(
        f.extraction_plan(&sfile(0x3100, 5000, true), true),
        ExtractionPlan::Decrypt { region_index: 0 }
    );
    assert_eq!(
        f.extraction_plan(&sfile(0x9000, 4096, false), false),
        ExtractionPlan::Copy { page_count: 1, keep_encrypted: false }
    );
}

#[test]
fn page_copies() {
    assert_eq!(page_copy(5000, false, 0), (0, 4096));
    assert_eq!(page_copy(5000, false, 1), (4096, 904));
    assert_eq!(page_copy(5000, true, 1), (4096, 4096));
}

fn report(path: &str, resident: bool, runs: Vec<Option<u64>>, len: u64) -> NtfsStreamReport {
    NtfsStreamReport { path: path.to_string(), resident_data: resident, data_run_starts: runs, value_length: len }
}

#[test]
fn ntfs_files_chosen() {
    let reports = vec![
        report("$MFT", false, vec![Some(0)], 1),
        report("Game/Game.EXE", false, vec![Some(0x1000)], 10),
        report("file:stream", false, vec![Some(0x2000)], 1),
        report("small.txt", true, vec![Some(0x3000)], 1),
        report("split.bin", false, vec![Some(0x3000), Some(0x4000)], 1),
        report("sparse.bin", false, vec![None], 1),
        report("Data/late.pak", false, vec![Some(0x9000)], 20),
    ];
    let all = select_ntfs_files(&reports, 0x10000, 0x18000, false);
    let view: Vec<(String, u64, u64, bool)> = all
        .iter()
        .map(|f| (f.name.clone(), f.file.offset, f.file.length, f.file.keep_encrypted))
        .collect();
    assert_eq!(
        view,
        vec![
            ("Game\\Game.EXE".to_string(), 0x11000, 10, true),
            ("Data\\late.pak".to_string(), 0x19000, 20, false),
        ]
    );
    let plain = select_ntfs_files(&reports, 0x10000, 0x18000, true);
    assert_eq!(plain.len(), 1);
    assert_eq!(plain[0].name, "Game\\Game.EXE");
    assert!(!plain[0].file.keep_encrypted);
}

#[test]
fn empty_file_needs_no_search() {
    // the region's end lies past u64::MAX, but an empty file is never searched for
    let f = file(&[enc(10, u64::MAX - 5, 0)]);
    assert_eq!(f.extraction_plan(&sfile(20, 0, false), false), ExtractionPlan::Empty);
}

#[test]
fn package_entries_and_headers() {
    let f = file(&[]);
    assert_eq!(f.package_entry_offsets(0x24, 8, 0x100, 3), vec![0x1000 + 0x2C, 0x1000 + 0x12C, 0x1000 + 0x22C]);
    assert_eq!(f.package_entry_offset(0x24, 8, 0x100, 2), 0x1000 + 0x22C);
    assert!(f.package_entry_offsets(0x24, 8, 0x100, 0).is_empty());
    assert!(region_headers_follow(1, 1));
    assert!(!region_headers_follow(0, 1));
    assert!(!region_headers_follow(1, 0));
    assert!(user_data_lists_package_files(0));
    assert!(!user_data_lists_package_files(1));
}

#[test]
fn xvd_file_from_header_values() {
    let layout = XvdLayout::compute(0, 0x1000, false, 0, 1, 0, 0);
    let regions = [enc(0x3000, 0x1000, 0)];
    let keys = vec![Guid { bytes: [1; 16] }];
    let f = XvdFile::from_header(Guid { bytes: [7; 16] }, 1 << 20, layout, 5, 1, keys.clone(), &regions);
    assert_eq!(f.encrypted_regions().len(), 1);
    assert_eq!(f.encryption_key_ids().len(), 1);
    let old = XvdFile::from_header(Guid { bytes: [7; 16] }, 1 << 20, layout, 5, 0, keys.clone(), &regions);
    assert!(old.encrypted_regions().is_empty());
    assert_eq!(old.encryption_key_ids().len(), 1);
    let none = XvdFile::from_header(Guid { bytes: [7; 16] }, 1 << 20, layout, 0, 1, keys, &regions);
    assert!(none.encrypted_regions().is_empty());
    assert!(none.encryption_key_ids().is_empty());
}

fn named(name: &str, offset: u64) -> NamedSegmentFile {
    NamedSegmentFile { name: name.to_string(), file: sfile(offset, 1, false) }
}

#[test]
fn package_file_lists_merge_in_order() {
    assert!(!ntfs_only_plain(&[]));
    assert!(ntfs_only_plain(&[named("a", 0)]));
    let m = merge_package_files(vec![named("a", 0), named("b", 1)], vec![named("a", 2)]);
    let v: Vec<(String, u64)> = m.iter().map(|f| (f.name.clone(), f.file.offset)).collect();
    assert_eq!(v, vec![("a".to_string(), 0), ("b".to_string(), 1), ("a".to_string(), 2)]);
}
