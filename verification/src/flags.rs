//! Bit-flag fields of XVD and XVC structures.
use crate::le::{le_u16, le_u32, read_u16_le, read_u32_le};
use vstd::prelude::*;

verus! {

/// Every bit set in `other` is set in `bits`.
pub open spec fn bits_contain(bits: u32, other: u32) -> bool {
    bits & other == other
}

/// Volume flags of an XVD header.
#[derive(Clone, Copy, PartialEq, Eq, Structural, Debug)]
pub struct XvdVolumeFlags {
    pub bits: u32,
}

impl XvdVolumeFlags {
    pub const READ_ONLY: u32 = 1;
    pub const ENCRYPTION_DISABLED: u32 = 2;
    pub const DATA_INTEGRITY_DISABLED: u32 = 4;
    pub const LEGACY_SECTOR_SIZE: u32 = 8;
    pub const RESILIENCY_ENABLED: u32 = 16;
    pub const SRA_READ_ONLY: u32 = 32;
    pub const REGION_ID_IN_XTS: u32 = 64;
    pub const ERA_SPECIFIC: u32 = 128;

    /// The flags with exactly the given bits, unknown bits included.
    pub fn from_bits_retain(bits: u32) -> (f: XvdVolumeFlags)
        ensures
            f.bits == bits,
    {
        XvdVolumeFlags { bits }
    }

    /// The raw bits.
    pub fn bits(&self) -> (b: u32)
        ensures
            b == self.bits,
    {
        self.bits
    }

    /// All flags of `other` are set in `self`.
    pub fn contains(&self, other: XvdVolumeFlags) -> (r: bool)
        ensures
            r == bits_contain(self.bits, other.bits),
    {
        self.bits & other.bits == other.bits
    }

    /// Parses the flags from their four-byte little-endian form.
    pub fn parse(bytes: &[u8]) -> (f: XvdVolumeFlags)
        requires
            bytes@.len() == 4,
        ensures
            f.bits == le_u32(bytes@, 0),
    {
        XvdVolumeFlags { bits: read_u32_le(bytes, 0) }
    }

    /// The volume is encrypted unless `ENCRYPTION_DISABLED` is set.
    pub fn is_encrypted(&self) -> (r: bool)
        ensures
            r == !bits_contain(self.bits, 2),
    {
        !self.contains(Self::from_bits_retain(Self::ENCRYPTION_DISABLED))
    }

    /// `LEGACY_SECTOR_SIZE` is set.
    pub fn is_legacy_sector_size(&self) -> (r: bool)
        ensures
            r == bits_contain(self.bits, 8),
    {
        self.contains(Self::from_bits_retain(Self::LEGACY_SECTOR_SIZE))
    }

    /// Data integrity is enabled unless `DATA_INTEGRITY_DISABLED` is set.
    pub fn is_data_integrity_enabled(&self) -> (r: bool)
        ensures
            r == !bits_contain(self.bits, 4),
    {
        !self.contains(Self::from_bits_retain(Self::DATA_INTEGRITY_DISABLED))
    }

    /// `RESILIENCY_ENABLED` is set.
    pub fn is_resiliency_enabled(&self) -> (r: bool)
        ensures
            r == bits_contain(self.bits, 16),
    {
        self.contains(Self::from_bits_retain(Self::RESILIENCY_ENABLED))
    }
}

/// Writeable-policy flags of an XVD header; no bit has a name.
#[derive(Clone, Copy, PartialEq, Eq, Structural, Debug)]
pub struct WriteablePolicyFlags {
    pub bits: u32,
}

impl WriteablePolicyFlags {
    /// The flags with exactly the given bits.
    pub fn from_bits_retain(bits: u32) -> (f: WriteablePolicyFlags)
        ensures
            f.bits == bits,
    {
        WriteablePolicyFlags { bits }
    }

    /// Parses the flags from their four-byte little-endian form.
    pub fn parse(bytes: &[u8]) -> (f: WriteablePolicyFlags)
        requires
            bytes@.len() == 4,
        ensures
            f.bits == le_u32(bytes@, 0),
    {
        WriteablePolicyFlags { bits: read_u32_le(bytes, 0) }
    }
}

/// Flags of an XVC info block; no bit has a name.
#[derive(Clone, Copy, PartialEq, Eq, Structural, Debug)]
pub struct XvcInfoFlags {
    pub bits: u32,
}

impl XvcInfoFlags {
    /// The flags with exactly the given bits.
    pub fn from_bits_retain(bits: u32) -> (f: XvcInfoFlags)
        ensures
            f.bits == bits,
    {
        XvcInfoFlags { bits }
    }

    /// Parses the flags from their four-byte little-endian form.
    pub fn parse(bytes: &[u8]) -> (f: XvcInfoFlags)
        requires
            bytes@.len() == 4,
        ensures
            f.bits == le_u32(bytes@, 0),
    {
        XvcInfoFlags { bits: read_u32_le(bytes, 0) }
    }
}

/// Flags of an XVC region header.
#[derive(Clone, Copy, PartialEq, Eq, Structural, Debug)]
pub struct XvcRegionFlags {
    pub bits: u32,
}

impl XvcRegionFlags {
    pub const RESIDENT: u32 = 1;
    pub const INITIAL_PLAY: u32 = 2;
    pub const PREVIEW: u32 = 4;
    pub const FILE_SYSTEM_METADATA: u32 = 8;
    pub const PRESENT: u32 = 16;
    pub const ON_DEMAND: u32 = 32;
    pub const AVAILABLE: u32 = 64;

    /// The flags with exactly the given bits.
    pub fn from_bits_retain(bits: u32) -> (f: XvcRegionFlags)
        ensures
            f.bits == bits,
    {
        XvcRegionFlags { bits }
    }

    /// All flags of `other` are set in `self`.
    pub fn contains(&self, other: XvcRegionFlags) -> (r: bool)
        ensures
            r == bits_contain(self.bits, other.bits),
    {
        self.bits & other.bits == other.bits
    }

    /// Parses the flags from their four-byte little-endian form.
    pub fn parse(bytes: &[u8]) -> (f: XvcRegionFlags)
        requires
            bytes@.len() == 4,
        ensures
            f.bits == le_u32(bytes@, 0),
    {
        XvcRegionFlags { bits: read_u32_le(bytes, 0) }
    }
}

/// Presence flags of an XVC region, one byte wide.
#[derive(Clone, Copy, PartialEq, Eq, Structural, Debug)]
pub struct XvcRegionPresenceInfoFlags {
    pub bits: u8,
}

impl XvcRegionPresenceInfoFlags {
    pub const IS_PRESENT: u8 = 1;
    pub const IS_AVAILABLE: u8 = 2;

    /// The flags with exactly the given bits.
    pub fn from_bits_retain(bits: u8) -> (f: XvcRegionPresenceInfoFlags)
        ensures
            f.bits == bits,
    {
        XvcRegionPresenceInfoFlags { bits }
    }

    /// All flags of `other` are set in `self`.
    pub fn contains(&self, other: XvcRegionPresenceInfoFlags) -> (r: bool)
        ensures
            r == (self.bits & other.bits == other.bits),
    {
        self.bits & other.bits == other.bits
    }

    /// Parses the flags from their one-byte form.
    pub fn parse(bytes: &[u8]) -> (f: XvcRegionPresenceInfoFlags)
        requires
            bytes@.len() == 1,
        ensures
            f.bits == bytes@[0],
    {
        XvcRegionPresenceInfoFlags { bits: bytes[0] }
    }
}

/// Flags of one segment in the segment metadata.
#[derive(Clone, Copy, PartialEq, Eq, Structural, Debug)]
pub struct XvdSegmentMetadataSegmentFlags {
    pub bits: u16,
}

impl XvdSegmentMetadataSegmentFlags {
    pub const KEEP_ENCRYPTED_ON_DISK: u16 = 1;

    /// The flags with exactly the given bits.
    pub fn from_bits_retain(bits: u16) -> (f: XvdSegmentMetadataSegmentFlags)
        ensures
            f.bits == bits,
    {
        XvdSegmentMetadataSegmentFlags { bits }
    }

    /// All flags of `other` are set in `self`.
    pub fn contains(&self, other: XvdSegmentMetadataSegmentFlags) -> (r: bool)
        ensures
            r == (self.bits & other.bits == other.bits),
    {
        self.bits & other.bits == other.bits
    }

    /// Parses the flags from their two-byte little-endian form.
    pub fn parse(bytes: &[u8]) -> (f: XvdSegmentMetadataSegmentFlags)
        requires
            bytes@.len() == 2,
        ensures
            f.bits == le_u16(bytes@, 0),
    {
        XvdSegmentMetadataSegmentFlags { bits: read_u16_le(bytes, 0) }
    }
}

} // verus!
