use msixvc::version::Version;
use msixvc::xsp::{
    XspFile, XspHeader, XspHeaderParseError, XspParseError, XspPatchRecord,
    XspPatchRecordParseError,
};

fn put_u32(b: &mut [u8], at: usize, v: u32) {
    b[at..at + 4].copy_from_slice(&v.to_le_bytes());
}

fn put_u64(b: &mut [u8], at: usize, v: u64) {
    b[at..at + 8].copy_from_slice(&v.to_le_bytes());
}

fn header_bytes(page_size: u32, record_count: u32) -> Vec<u8> {
    let mut b = vec![0u8; 860];
    b[0x200..0x208].copy_from_slice(b"MS-XPFM ");
    put_u32(&mut b, 0x208, page_size);
    for i in 0..16 {
        b[0x210 + i] = i as u8;
        b[0x318 + i] = 0x10 + i as u8;
        b[0x33C + i] = 0x20 + i as u8;
    }
    put_u32(&mut b, 0x27C, record_count);
    put_u64(&mut b, 0x2C8, 123_456_789);
    put_u64(&mut b, 0x2D0, 987_654_321);
    // previous version 1.2.3.4, current version 1.2.3.5 (build, patch, minor, major)
    b[0x34C..0x354].copy_from_slice(&[4, 0, 3, 0, 2, 0, 1, 0]);
    b[0x354..0x35C].copy_from_slice(&[5, 0, 3, 0, 2, 0, 1, 0]);
    b
}

fn record_bytes(source: u32, flag: u32, target: u32, count: u32) -> [u8; 16] {
    let mut r = [0u8; 16];
    put_u32(&mut r, 0, source);
    put_u32(&mut r, 4, flag);
    put_u32(&mut r, 8, target);
    put_u32(&mut r, 12, count);
    r
}

#[test]
fn xsp_header_fields() {
    let b = header_bytes(4096, 2);
    let h = XspHeader::try_parse(&b).unwrap();
    assert_eq!(h.page_size, 4096);
    assert_eq!(h.record_count, 2);
    assert_eq!(h.total_download, 123_456_789);
    assert_eq!(h.disk_space_required, 987_654_321);
    assert_eq!(h.content_id.to_bytes_le(), [0, 1, 2, 3, 4, 5, 6, 7, 8, 9, 10, 11, 12, 13, 14, 15]);
    assert_eq!(h.content_id.bytes[0], 3);
    assert_eq!(h.plan_id.to_bytes_le()[0], 0x10);
    assert_eq!(h.xsp_id.to_bytes_le()[15], 0x2F);
    assert_eq!(h.upgrade_from_version, Version { major: 1, minor: 2, patch: 3, build: 4 });
    assert_eq!(h.upgrade_to_version, Version { major: 1, minor: 2, patch: 3, build: 5 });
}

#[test]
fn xsp_header_bad_magic() {
    let mut b = header_bytes(4096, 0);
    b[0x207] = b'X';
    match XspHeader::try_parse(&b) {
        Err(XspHeaderParseError::InvalidMagic(got)) => assert_eq!(&got, b"MS-XPFMX"),
        other => panic!("unexpected {:?}", other),
    }
}

#[test]
fn xsp_records() {
    assert_eq!(
        XspPatchRecord::try_parse(&record_bytes(7, 0, 9, 3)).unwrap(),
        XspPatchRecord::NewData { block_number: 9, block_count: 3 }
    );
    assert_eq!(
        XspPatchRecord::try_parse(&record_bytes(7, 0x8800_0000, 9, 3)).unwrap(),
        XspPatchRecord::CopyData { old_block_number: 7, new_block_number: 9, block_count: 3 }
    );
    assert_eq!(
        XspPatchRecord::try_parse(&record_bytes(7, 5, 9, 3)).unwrap_err(),
        XspPatchRecordParseError::UnknownFlag(5)
    );
}

#[test]
fn xsp_file_reads_records_at_page_size() {
    let mut data = header_bytes(1024, 2);
    data.resize(1024, 0xAA);
    data.extend_from_slice(&record_bytes(1, 0, 2, 3));
    data.extend_from_slice(&record_bytes(4, 0x8800_0000, 5, 6));
    let f = XspFile::parse_bytes(&data).unwrap();
    assert_eq!(f.header.record_count, 2);
    assert_eq!(
        f.entries,
        vec![
            XspPatchRecord::NewData { block_number: 2, block_count: 3 },
            XspPatchRecord::CopyData { old_block_number: 4, new_block_number: 5, block_count: 6 },
        ]
    );
}

#[test]
fn xsp_file_errors() {
    assert!(matches!(XspFile::parse_bytes(&[0u8; 100]), Err(XspParseError::Truncated)));
    let mut data = header_bytes(860, 2);
    data.extend_from_slice(&record_bytes(1, 0, 2, 3));
    assert!(matches!(XspFile::parse_bytes(&data), Err(XspParseError::Truncated)));
    data.extend_from_slice(&record_bytes(1, 7, 2, 3));
    assert!(matches!(
        XspFile::parse_bytes(&data),
        Err(XspParseError::Record(XspPatchRecordParseError::UnknownFlag(7)))
    ));
    let mut bad = header_bytes(860, 0);
    bad[0x200] = 0;
    assert!(matches!(XspFile::parse_bytes(&bad), Err(XspParseError::Header(_))));
}
