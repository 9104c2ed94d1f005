//! Windows onto part of a seekable stream: the position arithmetic of
//! reading, writing and seeking inside a byte range of an inner stream.
use vstd::prelude::*;

verus! {

/// Where a seek goes: to an offset from the start, or by a signed distance
/// from the current position or from the end.
#[derive(Clone, Copy, PartialEq, Eq, Structural, Debug)]
pub enum SeekTarget {
    Start(u64),
    Current(i64),
    End(i64),
}

/// Why a seek or a read position was refused.
#[derive(Clone, Copy, PartialEq, Eq, Structural, Debug)]
pub enum SeekError {
    /// A relative seek went below 0 or above `u64::MAX`.
    InvalidRelativeSeek,
    /// An end-relative seek went below 0 or above `u64::MAX`.
    InvalidEndRelativeSeek,
    /// The target lies past the end of the window.
    PastEnd,
    /// The inner stream stands before the start of the window.
    BeforeStart,
    /// The rest of the window is larger than a buffer length can be.
    RemainingTooLarge,
}

/// `base + delta` when it lies in `0..=u64::MAX`.
pub open spec fn offset_by(base: u64, delta: i64) -> Option<u64> {
    if 0 <= base + delta <= u64::MAX {
        Some((base + delta) as u64)
    } else {
        None
    }
}

/// The position that a seek to `target` reaches in a window of length
/// `len` whose current position is `current`; it must not pass the end.
pub open spec fn seek_result(target: SeekTarget, current: u64, len: u64) -> Result<u64, SeekError> {
    let next = match target {
        SeekTarget::Start(n) => Ok(n),
        SeekTarget::Current(d) => match offset_by(current, d) {
            Some(n) => Ok(n),
            None => Err(SeekError::InvalidRelativeSeek),
        },
        SeekTarget::End(d) => match offset_by(len, d) {
            Some(n) => Ok(n),
            None => Err(SeekError::InvalidEndRelativeSeek),
        },
    };
    match next {
        Ok(n) => if n > len {
            Err(SeekError::PastEnd)
        } else {
            Ok(n)
        },
        Err(e) => Err(e),
    }
}

/// Adds a signed distance to an offset, failing below 0 or above `u64::MAX`.
fn checked_offset(base: u64, delta: i64) -> (r: Option<u64>)
    ensures
        r == offset_by(base, delta),
{
    if delta >= 0 {
        base.checked_add(delta as u64)
    } else {
        let back: u64 = ((-(delta + 1)) as u64) + 1;
        base.checked_sub(back)
    }
}

/// Computes the position that a seek reaches; see `seek_result`.
pub fn compute_seek(target: SeekTarget, current: u64, len: u64) -> (r: Result<u64, SeekError>)
    ensures
        r == seek_result(target, current, len),
{
    let next = match target {
        SeekTarget::Start(n) => n,
        SeekTarget::Current(d) => match checked_offset(current, d) {
            Some(n) => n,
            None => {
                return Err(SeekError::InvalidRelativeSeek);
            },
        },
        SeekTarget::End(d) => match checked_offset(len, d) {
            Some(n) => n,
            None => {
                return Err(SeekError::InvalidEndRelativeSeek);
            },
        },
    };
    if next > len {
        return Err(SeekError::PastEnd);
    }
    Ok(next)
}

/// How many bytes a read or write of a buffer of `buf_len` bytes may move
/// at `pos` in a window of length `len`: none at or past the end, otherwise
/// the smaller of the buffer and the rest of the window.
pub open spec fn window_transfer(pos: u64, len: u64, buf_len: usize) -> Result<usize, SeekError> {
    if pos >= len {
        Ok(0)
    } else if len - pos > usize::MAX {
        Err(SeekError::RemainingTooLarge)
    } else if len - pos < buf_len {
        Ok((len - pos) as usize)
    } else {
        Ok(buf_len)
    }
}

fn compute_transfer(pos: u64, len: u64, buf_len: usize) -> (r: Result<usize, SeekError>)
    ensures
        r == window_transfer(pos, len, buf_len),
{
    if pos >= len {
        return Ok(0);
    }
    let rest = len - pos;
    if rest > usize::MAX as u64 {
        return Err(SeekError::RemainingTooLarge);
    }
    let rest = rest as usize;
    if rest < buf_len {
        Ok(rest)
    } else {
        Ok(buf_len)
    }
}

/// One operation on a window's position: a seek, or a move past bytes that
/// were read or written.
#[derive(Clone, Copy, PartialEq, Eq, Structural, Debug)]
pub enum WindowOp {
    Seek(SeekTarget),
    Advance(usize),
}

/// The position and length of a window after one operation: an accepted
/// seek moves the position, a refused one leaves it; an advance moves it on.
/// The length never changes.
pub open spec fn window_step(pos: u64, len: u64, op: WindowOp) -> (u64, u64) {
    match op {
        WindowOp::Seek(t) => match seek_result(t, pos, len) {
            Ok(n) => (n, len),
            Err(_) => (pos, len),
        },
        WindowOp::Advance(n) => ((pos + n) as u64, len),
    }
}

/// The position and length of a window after a sequence of operations.
pub open spec fn window_run(pos: u64, len: u64, ops: Seq<WindowOp>) -> (u64, u64)
    decreases ops.len(),
{
    if ops.len() == 0 {
        (pos, len)
    } else {
        let (p, l) = window_step(pos, len, ops[0]);
        window_run(p, l, ops.drop_first())
    }
}

/// Every advance in `ops` moves past no more bytes than a transfer at that
/// point allows (for some buffer length).
pub open spec fn advances_within_window(pos: u64, len: u64, ops: Seq<WindowOp>) -> bool
    decreases ops.len(),
{
    if ops.len() == 0 {
        true
    } else {
        let ok = match ops[0] {
            WindowOp::Advance(n) => pos + n <= len,
            WindowOp::Seek(_) => true,
        };
        let (p, l) = window_step(pos, len, ops[0]);
        ok && advances_within_window(p, l, ops.drop_first())
    }
}

/// No sequence of seeks, reads and writes changes a window's length; and
/// when every read or write moves past no more bytes than remain, the
/// position stays within the window.
pub proof fn lemma_window_length_is_fixed(pos: u64, len: u64, ops: Seq<WindowOp>)
    ensures
        window_run(pos, len, ops).1 == len,
        pos <= len && advances_within_window(pos, len, ops) ==> window_run(pos, len, ops).0 <= len,
    decreases ops.len(),
{
    if ops.len() > 0 {
        let (p, l) = window_step(pos, len, ops[0]);
        lemma_window_length_is_fixed(p, l, ops.drop_first());
    }
}

/// A window of `len` bytes of the stream `inner`, starting at byte `start`,
/// with its own position.
pub struct SyncSubstream<R> {
    inner: R,
    start: u64,
    len: u64,
    pos: u64,
}

impl<R> SyncSubstream<R> {
    /// The offset of the window in the inner stream.
    pub closed spec fn start_spec(&self) -> u64 {
        self.start
    }

    /// The length of the window.
    pub closed spec fn len_spec(&self) -> u64 {
        self.len
    }

    /// The position inside the window.
    pub closed spec fn pos_spec(&self) -> u64 {
        self.pos
    }

    /// The inner stream.
    pub closed spec fn inner_spec(&self) -> R {
        self.inner
    }

    /// A window of `len` bytes of `inner` from byte `start`, positioned at
    /// its beginning.
    pub fn new(inner: R, start: u64, len: u64) -> (s: Self)
        ensures
            s.inner_spec() == inner,
            s.start_spec() == start,
            s.len_spec() == len,
            s.pos_spec() == 0,
    {
        SyncSubstream { inner, start, len, pos: 0 }
    }

    /// The length of the window.
    pub fn len(&self) -> (n: u64)
        ensures
            n == self.len_spec(),
    {
        self.len
    }

    /// The window holds no bytes.
    pub fn is_empty(&self) -> (b: bool)
        ensures
            b == (self.len_spec() == 0),
    {
        self.len == 0
    }

    /// The offset of the window in the inner stream.
    pub fn start(&self) -> (n: u64)
        ensures
            n == self.start_spec(),
    {
        self.start
    }

    /// The position inside the window.
    pub fn position(&self) -> (p: u64)
        ensures
            p == self.pos_spec(),
    {
        self.pos
    }

    /// Gives back the inner stream.
    pub fn into_inner(self) -> (r: R)
        ensures
            r == self.inner_spec(),
    {
        self.inner
    }

    /// The inner stream.
    pub fn get_ref(&self) -> (r: &R)
        ensures
            *r == self.inner_spec(),
    {
        &self.inner
    }

    /// The inner stream, for changing it.
    pub fn get_mut(&mut self) -> (r: &mut R)
        ensures
            *r == old(self).inner_spec(),
            final(self).inner_spec() == *final(r),
            final(self).start_spec() == old(self).start_spec(),
            final(self).len_spec() == old(self).len_spec(),
            final(self).pos_spec() == old(self).pos_spec(),
    {
        &mut self.inner
    }

    /// How many bytes a read or write with a buffer of `buf_len` bytes
    /// moves at the current position; see `window_transfer`.
    pub fn transfer_len(&self, buf_len: usize) -> (r: Result<usize, SeekError>)
        ensures
            r == window_transfer(self.pos_spec(), self.len_spec(), buf_len),
    {
        compute_transfer(self.pos, self.len, buf_len)
    }

    /// The offset in the inner stream of the current position.
    pub fn inner_position(&self) -> (p: u64)
        requires
            self.start_spec() + self.pos_spec() <= u64::MAX,
        ensures
            p == self.start_spec() + self.pos_spec(),
    {
        self.start + self.pos
    }

    /// Moves the position on by `n` bytes that were read or written.
    pub fn advance(&mut self, n: usize)
        requires
            old(self).pos_spec() + n <= u64::MAX,
        ensures
            final(self).pos_spec() == old(self).pos_spec() + n,
            (final(self).pos_spec(), final(self).len_spec()) == window_step(
                old(self).pos_spec(),
                old(self).len_spec(),
                WindowOp::Advance(n),
            ),
            final(self).inner_spec() == old(self).inner_spec(),
            final(self).start_spec() == old(self).start_spec(),
            final(self).len_spec() == old(self).len_spec(),
    {
        self.pos = self.pos + n as u64;
    }

    /// Seeks inside the window; the position stays unchanged when the seek
    /// is refused.
    pub fn seek(&mut self, target: SeekTarget) -> (r: Result<u64, SeekError>)
        ensures
            r == seek_result(target, old(self).pos_spec(), old(self).len_spec()),
            (final(self).pos_spec(), final(self).len_spec()) == window_step(
                old(self).pos_spec(),
                old(self).len_spec(),
                WindowOp::Seek(target),
            ),
            final(self).pos_spec() == match r {
                Ok(n) => n,
                Err(_) => old(self).pos_spec(),
            },
            final(self).inner_spec() == old(self).inner_spec(),
            final(self).start_spec() == old(self).start_spec(),
            final(self).len_spec() == old(self).len_spec(),
    {
        let r = compute_seek(target, self.pos, self.len);
        match r {
            Ok(n) => {
                self.pos = n;
            },
            Err(_) => {},
        }
        r
    }
}

/// A read-only view of the bytes `offset..end_offset` of the stream
/// `inner`, whose own position is that of the inner stream.
pub struct XvdStream<R> {
    inner: R,
    offset: u64,
    end_offset: u64,
}

impl<R> XvdStream<R> {
    /// The start of the view in the inner stream.
    pub closed spec fn offset_spec(&self) -> u64 {
        self.offset
    }

    /// The end of the view in the inner stream.
    pub closed spec fn end_offset_spec(&self) -> u64 {
        self.end_offset
    }

    /// The inner stream.
    pub closed spec fn inner_spec(&self) -> R {
        self.inner
    }

    /// A view of the bytes `offset..end_offset` of `inner`.
    pub fn new(inner: R, offset: u64, end_offset: u64) -> (s: Self)
        ensures
            s.inner_spec() == inner,
            s.offset_spec() == offset,
            s.end_offset_spec() == end_offset,
    {
        XvdStream { inner, offset, end_offset }
    }

    /// The start of the view in the inner stream.
    pub fn offset(&self) -> (n: u64)
        ensures
            n == self.offset_spec(),
    {
        self.offset
    }

    /// The end of the view in the inner stream.
    pub fn end_offset(&self) -> (n: u64)
        ensures
            n == self.end_offset_spec(),
    {
        self.end_offset
    }

    /// The length of the view; a view that ends before it starts has none
    /// (`requires`).
    pub fn len(&self) -> (n: u64)
        requires
            self.offset_spec() <= self.end_offset_spec(),
        ensures
            n == self.end_offset_spec() - self.offset_spec(),
    {
        self.end_offset - self.offset
    }

    /// Gives back the inner stream.
    pub fn into_inner(self) -> (r: R)
        ensures
            r == self.inner_spec(),
    {
        self.inner
    }

    /// The inner stream, for reading and seeking it.
    pub fn get_mut(&mut self) -> (r: &mut R)
        ensures
            *r == old(self).inner_spec(),
            final(self).inner_spec() == *final(r),
            final(self).offset_spec() == old(self).offset_spec(),
            final(self).end_offset_spec() == old(self).end_offset_spec(),
    {
        &mut self.inner
    }

    /// The position in the view of the inner stream's position `absolute`.
    pub fn relative_position(&self, absolute: u64) -> (r: Result<u64, SeekError>)
        ensures
            absolute >= self.offset_spec() ==> r == Ok::<u64, SeekError>(
                (absolute - self.offset_spec()) as u64,
            ),
            absolute < self.offset_spec() ==> r == Err::<u64, SeekError>(SeekError::BeforeStart),
    {
        match absolute.checked_sub(self.offset) {
            Some(n) => Ok(n),
            None => Err(SeekError::BeforeStart),
        }
    }

    /// How many bytes a read with a buffer of `buf_len` bytes may take at
    /// the view position `current`; see `window_transfer`.
    pub fn read_len(&self, current: u64, buf_len: usize) -> (r: Result<usize, SeekError>)
        requires
            self.offset_spec() <= self.end_offset_spec(),
        ensures
            r == window_transfer(
                current,
                (self.end_offset_spec() - self.offset_spec()) as u64,
                buf_len,
            ),
    {
        compute_transfer(current, self.len(), buf_len)
    }

    /// The view position and the inner stream offset that a seek reaches
    /// from the view position `current`.
    pub fn seek_position(&self, target: SeekTarget, current: u64) -> (r: Result<(u64, u64), SeekError>)
        requires
            self.offset_spec() <= self.end_offset_spec(),
        ensures
            match seek_result(target, current, (self.end_offset_spec() - self.offset_spec()) as u64) {
                Ok(n) => r == Ok::<(u64, u64), SeekError>((n, (self.offset_spec() + n) as u64)),
                Err(e) => r == Err::<(u64, u64), SeekError>(e),
            },
    {
        let n = compute_seek(target, current, self.len())?;
        Ok((n, self.offset + n))
    }
}

/// Seeking to an offset and then by a distance lands where the distance
/// says, and seeking back by the same distance returns to the offset; a
/// seek from the end by 0 reaches the length.
pub proof fn lemma_seek_round_trip(n: u64, d: i64, len: u64)
    requires
        n <= len,
        0 <= n + d <= len,
        d > i64::MIN,
    ensures
        seek_result(SeekTarget::Start(n), 0, len) == Ok::<u64, SeekError>(n),
        seek_result(SeekTarget::Current(d), n, len) == Ok::<u64, SeekError>((n + d) as u64),
        seek_result(SeekTarget::Current((-d) as i64), (n + d) as u64, len) == Ok::<u64, SeekError>(n),
        seek_result(SeekTarget::End(0), n, len) == Ok::<u64, SeekError>(len),
{
}

/// A window's position never passes its length: every accepted seek stays
/// within it, and a transfer never moves more bytes than remain.
pub proof fn lemma_window_stays_in_bounds(target: SeekTarget, pos: u64, len: u64, buf_len: usize)
    requires
        pos <= len,
    ensures
        seek_result(target, pos, len) matches Ok(n) ==> n <= len,
        window_transfer(pos, len, buf_len) matches Ok(t) ==> pos + t <= len && t <= buf_len,
{
}

} // verus!
