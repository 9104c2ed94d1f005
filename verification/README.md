# msixvc

Verified logic for MSIXVC game packages, written in Verus.

- `src/` is the verified library:
  - `cli`: what the command line streams (content id or product, the
    `.msixvc` package file, its CDN URLs);
  - `le`: little-endian fields in byte buffers;
  - `version`, `guid`, `filetime`, `flags`: the small values stored in the
    binaries (versions and their order, identifiers and their text form,
    FILETIME stamps, bit-flag fields);
  - `xsp`: the XSP patch format (header, patch records, whole files);
  - `xvd`: the XVD image layout, the encrypted regions, where segments and
    NTFS files lie, and how a file is copied out;
  - `substream`: position arithmetic of windows onto a stream;
  - `streaming`: the streaming pipeline's decisions (resident region
    length, resuming, the download schedule, the producer's steps, progress);
  - `text`: characters, UTF-16 names and decimal text.
- `tests/` runs the library on concrete values.
- `app/` holds the I/O and async plumbing: file and network producers, the
  stream manager, `std::io` adapters for the windows, file extraction,
  progress bars and the socket proxy.
