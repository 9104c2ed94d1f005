//! Verified logic for MSIXVC packages: the XVD image layout, the XSP patch
//! format, the identifiers, versions and flag fields stored in them, and the
//! decisions of the streaming pipeline that downloads a package.

pub mod cli;
pub mod filetime;
pub mod flags;
pub mod guid;
pub mod le;
pub mod streaming;
pub mod substream;
pub mod text;
pub mod version;
pub mod xsp;
pub mod xvd;
