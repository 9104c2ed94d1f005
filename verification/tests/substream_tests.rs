use msixvc::substream::{compute_seek, SeekError, SeekTarget, SyncSubstream, XvdStream};

#[test]
fn sync_substream_basics() {
    let s = SyncSubstream::new(vec![1u8, 2, 3], 10, 100);
    assert_eq!(s.len(), 100);
    assert!(!s.is_empty());
    assert_eq!(s.position(), 0);
    assert_eq!(s.get_ref(), &vec![1u8, 2, 3]);
    assert!(SyncSubstream::new((), 0, 0).is_empty());
    let mut m = SyncSubstream::new(vec![0u8], 0, 1);
    m.get_mut().push(5);
    assert_eq!(m.into_inner(), vec![0u8, 5]);
}

#[test]
fn sync_substream_seek_and_transfer() {
    let mut s = SyncSubstream::new((), 1000, 100);
    assert_eq!(s.seek(SeekTarget::Start(40)), Ok(40));
    assert_eq!(s.seek(SeekTarget::Current(-10)), Ok(30));
    assert_eq!(s.seek(SeekTarget::Current(-31)), Err(SeekError::InvalidRelativeSeek));
    assert_eq!(s.position(), 30);
    assert_eq!(s.seek(SeekTarget::End(-20)), Ok(80));
    assert_eq!(s.seek(SeekTarget::End(1)), Err(SeekError::PastEnd));
    assert_eq!(s.seek(SeekTarget::End(-101)), Err(SeekError::InvalidEndRelativeSeek));
    assert_eq!(s.seek(SeekTarget::Start(101)), Err(SeekError::PastEnd));
    assert_eq!(s.inner_position(), 1080);
    assert_eq!(s.transfer_len(64), Ok(20));
    assert_eq!(s.transfer_len(8), Ok(8));
    s.advance(20);
    assert_eq!(s.transfer_len(8), Ok(0));
    assert_eq!(compute_seek(SeekTarget::Current(i64::MIN), 5, 10), Err(SeekError::InvalidRelativeSeek));
}

#[test]
fn xvd_stream_window() {
    let v = XvdStream::new((), 4096, 4096 + 300);
    assert_eq!(v.len(), 300);
    assert_eq!(v.relative_position(4100), Ok(4));
    assert_eq!(v.relative_position(100), Err(SeekError::BeforeStart));
    assert_eq!(v.read_len(290, 64), Ok(10));
    assert_eq!(v.read_len(300, 64), Ok(0));
    assert_eq!(v.seek_position(SeekTarget::Start(10), 0), Ok((10, 4106)));
    assert_eq!(v.seek_position(SeekTarget::Current(5), 10), Ok((15, 4111)));
    assert_eq!(v.seek_position(SeekTarget::End(0), 10), Ok((300, 4396)));
    assert_eq!(v.seek_position(SeekTarget::End(1), 10), Err(SeekError::PastEnd));
}

#[test]
fn window_length_never_changes() {
    let mut s = SyncSubstream::new((), 50, 64);
    let _ = s.seek(SeekTarget::End(-4));
    let n = s.transfer_len(100).unwrap();
    s.advance(n);
    let _ = s.seek(SeekTarget::Current(1));
    let _ = s.seek(SeekTarget::Start(1000));
    let _ = s.get_mut();
    assert_eq!(s.len(), 64);
    assert_eq!(s.position(), 64);
}

#[test]
fn xvd_stream_built_backwards() {
    // a view may be built with its end before its start; only its length is undefined
    let v = XvdStream::new((), 100, 50);
    assert_eq!((v.offset(), v.end_offset()), (100, 50));
    assert_eq!(v.relative_position(120), Ok(20));
}
