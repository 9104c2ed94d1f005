use msixvc::guid::Guid;

const LE: [u8; 16] = [
    0x50, 0x44, 0xe5, 0x67, 0xb1, 0x10, 0x6f, 0x42, 0x92, 0x47, 0xbb, 0x68, 0x0e, 0x5f, 0xe0, 0xc8,
];

#[test]
fn guid_from_little_endian_bytes() {
    let g = Guid::from_bytes_le(LE);
    assert_eq!(
        g.bytes,
        [0x67, 0xe5, 0x44, 0x50, 0x10, 0xb1, 0x42, 0x6f, 0x92, 0x47, 0xbb, 0x68, 0x0e, 0x5f, 0xe0, 0xc8]
    );
    assert_eq!(g.to_bytes_le(), LE);
}

#[test]
fn guid_hyphenated_upper_case() {
    let g = Guid::from_bytes_le(LE);
    assert_eq!(g.to_upper_hyphenated(), "67E54450-10B1-426F-9247-BB680E5FE0C8");
    let z = Guid { bytes: [0; 16] };
    assert_eq!(z.to_upper_hyphenated(), "00000000-0000-0000-0000-000000000000");
}
