use msixvc::flags::{
    XvcRegionFlags, XvcRegionPresenceInfoFlags, XvdSegmentMetadataSegmentFlags, XvdVolumeFlags,
};

#[test]
fn volume_flags_default_to_encrypted_with_integrity() {
    let f = XvdVolumeFlags::from_bits_retain(0);
    assert!(f.is_encrypted());
    assert!(f.is_data_integrity_enabled());
    assert!(!f.is_legacy_sector_size());
    assert!(!f.is_resiliency_enabled());
}

#[test]
fn volume_flags_disable_bits() {
    let f = XvdVolumeFlags::parse(&[0x1E, 0, 0, 0]);
    assert_eq!(f.bits(), 0x1E);
    assert!(!f.is_encrypted());
    assert!(!f.is_data_integrity_enabled());
    assert!(f.is_legacy_sector_size());
    assert!(f.is_resiliency_enabled());
    assert!(f.contains(XvdVolumeFlags::from_bits_retain(XvdVolumeFlags::ENCRYPTION_DISABLED)));
    assert!(!f.contains(XvdVolumeFlags::from_bits_retain(XvdVolumeFlags::READ_ONLY | 2)));
}

#[test]
fn other_flags_parse_little_endian() {
    let r = XvcRegionFlags::parse(&[0x01, 0x00, 0x00, 0x80]);
    assert_eq!(r.bits, 0x8000_0001);
    assert!(r.contains(XvcRegionFlags::from_bits_retain(XvcRegionFlags::RESIDENT)));
    assert!(!r.contains(XvcRegionFlags::from_bits_retain(XvcRegionFlags::PRESENT)));
    let p = XvcRegionPresenceInfoFlags::parse(&[2]);
    assert!(p.contains(XvcRegionPresenceInfoFlags::from_bits_retain(
        XvcRegionPresenceInfoFlags::IS_AVAILABLE
    )));
    let s = XvdSegmentMetadataSegmentFlags::parse(&[1, 0]);
    assert!(s.contains(XvdSegmentMetadataSegmentFlags::from_bits_retain(
        XvdSegmentMetadataSegmentFlags::KEEP_ENCRYPTED_ON_DISK
    )));
}
