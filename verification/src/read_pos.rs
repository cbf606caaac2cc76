//! Positioned reads over a shared file.
//!
//! A reader keeps its own position and never uses the cursor of the file, so
//! any number of readers can share one file. The types here decide which bytes
//! of the file a read covers and where the position goes. The read itself is
//! made by the owner of the file handle `F`.
use vstd::prelude::*;

verus! {

/// An absolute range of a file, starting at `offset`.
#[derive(Clone, Copy, Debug, PartialEq, Eq, Structural)]
pub struct FileRange {
    pub offset: u64,
    pub len: usize,
}

/// Where a seek is counted from.
#[derive(Clone, Copy, Debug, PartialEq, Eq, Structural)]
pub enum SeekFrom {
    /// From the start.
    Start(u64),
    /// From the end. A negative distance is before the end.
    End(i64),
    /// From the current position.
    Current(i64),
}

/// Why a seek was refused. The position is unchanged.
#[derive(Clone, Copy, Debug, PartialEq, Eq, Structural)]
pub enum SeekError {
    /// The file position would be negative.
    NegativeAbsolute,
    /// The position would be before the start of the slice.
    Negative,
    /// The position would exceed the range of `u64`.
    Overflow,
}

impl SeekError {
    /// A description for the user.
    pub fn message(&self) -> (s: String)
        ensures
            s@ == (match *self {
                SeekError::NegativeAbsolute => "Attempted seek to a negative absolute position"@,
                SeekError::Negative => "Attempted seek to a negative position"@,
                SeekError::Overflow => "Attempted seek would overflow u64 position"@,
            }),
    {
        match *self {
            SeekError::NegativeAbsolute => "Attempted seek to a negative absolute position".to_owned(),
            SeekError::Negative => "Attempted seek to a negative position".to_owned(),
            SeekError::Overflow => "Attempted seek would overflow u64 position".to_owned(),
        }
    }
}

/// Positioned reads, at an offset from the start of the file or range.
pub trait PosRead: Sized {
    /// The absolute range that a read of `len` bytes at `offset` covers.
    spec fn covered(&self, len: usize, offset: u64) -> FileRange;

    /// Whether the value is consistent.
    spec fn valid(&self) -> bool;

    /// Return the absolute range of the file to read, for a buffer of `len`
    /// bytes and an offset from the start of the file or range. The length is
    /// 0 at and beyond the end of a range.
    fn pread(&self, len: usize, offset: u64) -> (r: FileRange)
        requires
            self.valid(),
        ensures
            r == self.covered(len, offset),
            r.len <= len,
    ;
}

/// An instance independent position in a shared file.
///
/// The `length` is fixed and serves only for [`SeekFrom::End`]. Reads are not
/// limited by it.
#[derive(Debug)]
pub struct ReadPos<F> {
    pub pos: u64,
    pub length: u64,
    pub file: F,
}

/// The position at a signed distance from an origin.
pub open spec fn moved(origin: u64, offset: i64) -> int {
    origin + offset
}

/// The outcome of a move: the new position, or `None` where it is out of the
/// range of `u64`.
fn checked_move(origin: u64, offset: i64) -> (r: Option<u64>)
    requires
        offset != i64::MIN,
    ensures
        r == (if 0 <= moved(origin, offset) <= u64::MAX {
            Some(moved(origin, offset) as u64)
        } else {
            None
        }),
{
    if offset < 0 {
        origin.checked_sub((-offset) as u64)
    } else {
        origin.checked_add(offset as u64)
    }
}

impl<F> ReadPos<F> {
    /// Whether a seek is within what can be computed: the distance has an
    /// absolute value.
    pub open spec fn seekable(from: SeekFrom) -> bool {
        match from {
            SeekFrom::Start(_) => true,
            SeekFrom::End(d) => d != i64::MIN,
            SeekFrom::Current(d) => d != i64::MIN,
        }
    }

    /// The position that a seek asks for.
    pub open spec fn target(&self, from: SeekFrom) -> int {
        match from {
            SeekFrom::Start(p) => p as int,
            SeekFrom::End(d) => moved(self.length, d),
            SeekFrom::Current(d) => moved(self.pos, d),
        }
    }

    /// A reader at position 0 of a file with a known length.
    pub fn new(file: F, length: u64) -> (r: ReadPos<F>)
        ensures
            r == (ReadPos { pos: 0, length, file }),
    {
        ReadPos { pos: 0, length, file }
    }

    /// The length given on construction, which may differ from that of the
    /// file.
    pub fn len(&self) -> (n: u64)
        ensures
            n == self.length,
    {
        self.length
    }

    /// Whether the length is 0.
    pub fn is_empty(&self) -> (b: bool)
        ensures
            b == (self.length == 0),
    {
        self.length == 0
    }

    /// The current position.
    pub fn tell(&self) -> (p: u64)
        ensures
            p == self.pos,
    {
        self.pos
    }

    /// A new, independent slice of the same file. The end is not checked
    /// against the length.
    pub fn subslice(&self, start: u64, end: u64) -> (r: ReadSlice<F>) where F: Clone
        requires
            start <= end,
        ensures
            r.start == start,
            r.pos == start,
            r.end == end,
            r.wf(),
            cloned::<F>(self.file, r.file),
    {
        ReadSlice::new(self.file.clone(), start, end)
    }

    /// The range of the file that a read of `len` bytes covers now.
    pub fn next_read(&self, len: usize) -> (r: FileRange)
        ensures
            r == (FileRange { offset: self.pos, len }),
    {
        self.pread(len, self.pos)
    }

    /// Move past `n` bytes that were read.
    pub fn advance(&mut self, n: usize)
        requires
            old(self).pos + n <= u64::MAX,
        ensures
            *final(self) == (ReadPos { pos: (old(self).pos + n) as u64, ..*old(self) }),
    {
        self.pos = self.pos + n as u64;
    }

    /// Move by a signed distance from an origin.
    pub fn seek_from(&mut self, origin: u64, offset: i64) -> (r: Result<u64, SeekError>)
        requires
            offset != i64::MIN,
        ensures
            r == (if moved(origin, offset) < 0 {
                Err(SeekError::NegativeAbsolute)
            } else if moved(origin, offset) > u64::MAX {
                Err(SeekError::Overflow)
            } else {
                Ok(moved(origin, offset) as u64)
            }),
            *final(self) == (match r {
                Ok(p) => ReadPos { pos: p, ..*old(self) },
                Err(_) => *old(self),
            }),
    {
        if let Some(p) = checked_move(origin, offset) {
            self.pos = p;
            Ok(p)
        } else if offset < 0 {
            Err(SeekError::NegativeAbsolute)
        } else {
            Err(SeekError::Overflow)
        }
    }

    /// Set the position, and return it. The position may be beyond the end.
    pub fn seek(&mut self, from: SeekFrom) -> (r: Result<u64, SeekError>)
        requires
            Self::seekable(from),
        ensures
            r == (if old(self).target(from) < 0 {
                Err(SeekError::NegativeAbsolute)
            } else if old(self).target(from) > u64::MAX {
                Err(SeekError::Overflow)
            } else {
                Ok(old(self).target(from) as u64)
            }),
            *final(self) == (match r {
                Ok(p) => ReadPos { pos: p, ..*old(self) },
                Err(_) => *old(self),
            }),
    {
        match from {
            SeekFrom::Start(p) => {
                self.pos = p;
                Ok(p)
            },
            SeekFrom::End(offset) => {
                let origin: u64 = self.length;
                self.seek_from(origin, offset)
            },
            SeekFrom::Current(offset) => {
                let origin: u64 = self.pos;
                self.seek_from(origin, offset)
            },
        }
    }
}

impl<F: Clone> Clone for ReadPos<F> {
    /// A new, independent reader of the same file, at position 0.
    fn clone(&self) -> (r: ReadPos<F>)
        ensures
            r.pos == 0,
            r.length == self.length,
            cloned::<F>(self.file, r.file),
    {
        ReadPos { pos: 0, length: self.length, file: self.file.clone() }
    }
}

impl<F> PosRead for ReadPos<F> {
    open spec fn covered(&self, len: usize, offset: u64) -> FileRange {
        FileRange { offset, len }
    }

    open spec fn valid(&self) -> bool {
        true
    }

    fn pread(&self, len: usize, offset: u64) -> FileRange {
        FileRange { offset, len }
    }
}

/// An instance independent position in a range of a shared file.
///
/// Positions are relative to the start of the range, and reads are limited to
/// the range.
#[derive(Debug)]
pub struct ReadSlice<F> {
    pub start: u64,
    pub pos: u64,
    pub end: u64,
    pub file: F,
}

/// The part of a read at an absolute position that lies before `end`.
pub open spec fn clipped(abspos: u64, len: usize, end: u64) -> FileRange {
    FileRange {
        offset: abspos,
        len: if abspos >= end {
            0
        } else if len <= end - abspos {
            len
        } else {
            (end - abspos) as usize
        },
    }
}

impl<F> ReadSlice<F> {
    /// The position is never before the start, nor the end.
    pub open spec fn wf(&self) -> bool {
        &&& self.start <= self.end
        &&& self.start <= self.pos
    }

    /// The absolute position that a seek asks for.
    pub open spec fn target(&self, from: SeekFrom) -> int {
        match from {
            SeekFrom::Start(p) => self.start + p,
            SeekFrom::End(d) => moved(self.end, d),
            SeekFrom::Current(d) => moved(self.pos, d),
        }
    }

    /// The range `start..end` of a file, at its start.
    pub fn new(file: F, start: u64, end: u64) -> (r: ReadSlice<F>)
        requires
            start <= end,
        ensures
            r == (ReadSlice { start, pos: start, end, file }),
            r.wf(),
    {
        ReadSlice { start, pos: start, end, file }
    }

    /// The size of the range.
    pub fn len(&self) -> (n: u64)
        requires
            self.wf(),
        ensures
            n == self.end - self.start,
    {
        self.end - self.start
    }

    /// Whether the size is 0.
    pub fn is_empty(&self) -> (b: bool)
        requires
            self.wf(),
        ensures
            b == (self.start == self.end),
    {
        self.len() == 0
    }

    /// The range of the file to map into memory: the whole of the slice. It
    /// must not be empty, and must be addressable.
    pub fn mem_map(&self) -> (r: FileRange)
        requires
            self.wf(),
            self.start < self.end,
            self.end - self.start <= usize::MAX,
            self.start <= usize::MAX,
        ensures
            r.offset == self.start,
            r.len == self.end - self.start,
    {
        FileRange { offset: self.start, len: self.len() as usize }
    }

    /// A new, independent slice of the same file, for a range that is relative
    /// to this one and contained in it.
    pub fn subslice(&self, start: u64, end: u64) -> (r: ReadSlice<F>) where F: Clone
        requires
            self.wf(),
            start <= end,
            end <= self.end - self.start,
        ensures
            r.start == self.start + start,
            r.pos == r.start,
            r.end == self.start + end,
            r.wf(),
            cloned::<F>(self.file, r.file),
    {
        ReadSlice::new(self.file.clone(), self.start + start, self.start + end)
    }

    /// The current position, relative to the start.
    pub fn tell(&self) -> (p: u64)
        requires
            self.wf(),
        ensures
            p == self.pos - self.start,
    {
        self.pos - self.start
    }

    /// The range of the file that a read of `len` bytes at an absolute position
    /// covers.
    pub fn pread_abs(&self, len: usize, abspos: u64) -> (r: FileRange)
        ensures
            r == clipped(abspos, len, self.end),
    {
        if abspos < self.end {
            let mlen: u64 = self.end - abspos;
            if (len as u64) <= mlen {
                FileRange { offset: abspos, len }
            } else {
                FileRange { offset: abspos, len: mlen as usize }
            }
        } else {
            FileRange { offset: abspos, len: 0 }
        }
    }

    /// The range of the file that a read of `len` bytes covers now.
    pub fn next_read(&self, len: usize) -> (r: FileRange)
        ensures
            r == clipped(self.pos, len, self.end),
    {
        self.pread_abs(len, self.pos)
    }

    /// Move past `n` bytes that were read.
    pub fn advance(&mut self, n: usize)
        requires
            old(self).wf(),
            old(self).pos + n <= u64::MAX,
        ensures
            *final(self) == (ReadSlice { pos: (old(self).pos + n) as u64, ..*old(self) }),
            final(self).wf(),
    {
        self.pos = self.pos + n as u64;
    }

    /// Move by a signed distance from an absolute origin, and return the new
    /// position relative to the start.
    pub fn seek_from(&mut self, origin: u64, offset: i64) -> (r: Result<u64, SeekError>)
        requires
            old(self).wf(),
            offset != i64::MIN,
        ensures
            r == (if moved(origin, offset) < old(self).start {
                Err(SeekError::Negative)
            } else if moved(origin, offset) > u64::MAX {
                Err(SeekError::Overflow)
            } else {
                Ok((moved(origin, offset) - old(self).start) as u64)
            }),
            *final(self) == (match r {
                Ok(p) => ReadSlice { pos: (old(self).start + p) as u64, ..*old(self) },
                Err(_) => *old(self),
            }),
            final(self).wf(),
    {
        if let Some(p) = checked_move(origin, offset) {
            self.seek_to(p)
        } else if offset < 0 {
            Err(SeekError::Negative)
        } else {
            Err(SeekError::Overflow)
        }
    }

    /// Move to an absolute position, which may be beyond the end but not before
    /// the start.
    pub fn seek_to(&mut self, abspos: u64) -> (r: Result<u64, SeekError>)
        requires
            old(self).wf(),
        ensures
            r == (if abspos < old(self).start {
                Err(SeekError::Negative)
            } else {
                Ok((abspos - old(self).start) as u64)
            }),
            *final(self) == (match r {
                Ok(_) => ReadSlice { pos: abspos, ..*old(self) },
                Err(_) => *old(self),
            }),
            final(self).wf(),
    {
        if abspos < self.start {
            Err(SeekError::Negative)
        } else {
            self.pos = abspos;
            Ok(abspos - self.start)
        }
    }

    /// Set the position, relative to the slice, and return it.
    pub fn seek(&mut self, from: SeekFrom) -> (r: Result<u64, SeekError>)
        requires
            old(self).wf(),
            ReadPos::<F>::seekable(from),
        ensures
            r == (if old(self).target(from) < old(self).start {
                Err(SeekError::Negative)
            } else if old(self).target(from) > u64::MAX {
                Err(SeekError::Overflow)
            } else {
                Ok((old(self).target(from) - old(self).start) as u64)
            }),
            *final(self) == (match r {
                Ok(p) => ReadSlice { pos: (old(self).start + p) as u64, ..*old(self) },
                Err(_) => *old(self),
            }),
            final(self).wf(),
    {
        match from {
            SeekFrom::Start(p) => {
                if let Some(p) = self.start.checked_add(p) {
                    self.seek_to(p)
                } else {
                    Err(SeekError::Overflow)
                }
            },
            SeekFrom::End(offset) => {
                let origin: u64 = self.end;
                self.seek_from(origin, offset)
            },
            SeekFrom::Current(offset) => {
                let origin: u64 = self.pos;
                self.seek_from(origin, offset)
            },
        }
    }
}

impl<F: Clone> Clone for ReadSlice<F> {
    /// A new, independent reader of the same range, at its start.
    fn clone(&self) -> (r: ReadSlice<F>)
        ensures
            r.start == self.start,
            r.pos == self.start,
            r.end == self.end,
            cloned::<F>(self.file, r.file),
    {
        ReadSlice { start: self.start, pos: self.start, end: self.end, file: self.file.clone() }
    }
}

impl<F> PosRead for ReadSlice<F> {
    open spec fn covered(&self, len: usize, offset: u64) -> FileRange {
        let pos = if self.start + offset <= u64::MAX { (self.start + offset) as u64 } else { u64::MAX };
        clipped(pos, len, self.end)
    }

    open spec fn valid(&self) -> bool {
        self.wf()
    }

    fn pread(&self, len: usize, offset: u64) -> FileRange {
        let pos: u64 = self.start.saturating_add(offset);
        self.pread_abs(len, pos)
    }
}

/// Every read of a slice stays within it, whatever the position.
pub proof fn law_slice_reads_stay_inside<F>(s: ReadSlice<F>, len: usize)
    requires
        s.wf(),
    ensures
        ({
            let r = clipped(s.pos, len, s.end);
            r.len > 0 ==> s.start <= r.offset && r.offset + r.len <= s.end
        }),
        clipped(s.pos, len, s.end).len <= len,
        s.pos >= s.end ==> clipped(s.pos, len, s.end).len == 0,
        s.pos < s.end && len > 0 ==> clipped(s.pos, len, s.end).len > 0,
{
}

/// A positioned read of a slice of a slice is a positioned read of the outer
/// slice, moved by where the inner one starts, as far as the inner slice goes.
pub proof fn law_subslice_reads<F>(
    s: ReadSlice<F>,
    inner: ReadSlice<F>,
    from: u64,
    to: u64,
    len: usize,
    offset: u64,
)
    requires
        s.wf(),
        from <= to <= s.end - s.start,
        inner.start == s.start + from,
        inner.end == s.start + to,
        inner.wf(),
        offset + len <= to - from,
    ensures
        inner.covered(len, offset) == s.covered(len, (from + offset) as u64),
{
}

/// A seek to where `tell` said the reader was brings it back there.
pub proof fn law_seek_to_tell<F>(s: ReadSlice<F>, other: ReadSlice<F>)
    requires
        s.wf(),
        other.wf(),
        other.start == s.start,
    ensures
        other.target(SeekFrom::Start((s.pos - s.start) as u64)) == s.pos,
        s.target(SeekFrom::Current(0)) == s.pos,
{
}

/// A seek by a distance from the current position of a slice moves the position by
/// exactly that distance, back where it is negative. It fails, and then changes
/// nothing, exactly where the position would be before the start or beyond the
/// range of `u64`.
pub proof fn law_slice_seek_by<F>(
    s: &mut ReadSlice<F>,
    d: i64,
    r: Result<u64, SeekError>,
    before: u64,
    after: u64,
)
    requires
        old(s).wf(),
        call_ensures(ReadSlice::<F>::seek, (s, SeekFrom::Current(d)), r),
        call_ensures(ReadSlice::<F>::tell, (&*old(s),), before),
        call_ensures(ReadSlice::<F>::tell, (&*final(s),), after),
    ensures
        r is Ok ==> after == before + d && r->Ok_0 == after,
        r is Ok ==> final(s).pos == old(s).pos + d,
        r is Err ==> after == before,
        r is Ok <==> 0 <= before + d && old(s).pos + d <= u64::MAX,
        before + d < 0 ==> r == Err::<u64, SeekError>(SeekError::Negative),
        old(s).pos + d > u64::MAX ==> r == Err::<u64, SeekError>(SeekError::Overflow),
        final(s).start == old(s).start,
        final(s).end == old(s).end,
        final(s).file == old(s).file,
{
}

/// A seek by a distance and then by the opposite one, where both succeed, brings a
/// slice back to where it was.
pub proof fn law_slice_seek_there_and_back<F>(
    s: &mut ReadSlice<F>,
    t: &mut ReadSlice<F>,
    d: i64,
    there: Result<u64, SeekError>,
    back: Result<u64, SeekError>,
)
    requires
        old(s).wf(),
        d != i64::MIN,
        call_ensures(ReadSlice::<F>::seek, (s, SeekFrom::Current(d)), there),
        *old(t) == *final(s),
        call_ensures(ReadSlice::<F>::seek, (t, SeekFrom::Current((-d) as i64)), back),
        there is Ok,
    ensures
        back is Ok,
        *final(t) == *old(s),
{
}

/// A seek from the start of a slice goes to that distance from the start, and one
/// from the end to that distance from the end, whatever the position was.
pub proof fn law_slice_seek_from_ends<F>(
    s: &mut ReadSlice<F>,
    t: &mut ReadSlice<F>,
    p: u64,
    d: i64,
    r: Result<u64, SeekError>,
    e: Result<u64, SeekError>,
)
    requires
        old(s).wf(),
        old(t).wf(),
        call_ensures(ReadSlice::<F>::seek, (s, SeekFrom::Start(p)), r),
        call_ensures(ReadSlice::<F>::seek, (t, SeekFrom::End(d)), e),
    ensures
        r is Ok <==> old(s).start + p <= u64::MAX,
        r is Ok ==> r->Ok_0 == p && final(s).pos == old(s).start + p,
        r is Err ==> *final(s) == *old(s) && r->Err_0 is Overflow,
        e is Ok <==> old(t).start <= old(t).end + d <= u64::MAX,
        e is Ok ==> final(t).pos == old(t).end + d && e->Ok_0 == old(t).end + d - old(t).start,
        e is Err ==> *final(t) == *old(t),
        final(s).start == old(s).start && final(s).end == old(s).end && final(s).file == old(s).file,
        final(t).start == old(t).start && final(t).end == old(t).end && final(t).file == old(t).file,
{
}

/// A seek by a distance from the current position of a file moves the position by
/// exactly that distance, back where it is negative. It fails, and then changes
/// nothing, exactly where the position would be out of the range of `u64`.
pub proof fn law_file_seek_by<F>(s: &mut ReadPos<F>, d: i64, r: Result<u64, SeekError>)
    requires
        call_ensures(ReadPos::<F>::seek, (s, SeekFrom::Current(d)), r),
    ensures
        r is Ok <==> 0 <= old(s).pos + d <= u64::MAX,
        r is Ok ==> final(s).pos == old(s).pos + d && r->Ok_0 == final(s).pos,
        r is Err ==> *final(s) == *old(s),
        old(s).pos + d < 0 ==> r == Err::<u64, SeekError>(SeekError::NegativeAbsolute),
        old(s).pos + d > u64::MAX ==> r == Err::<u64, SeekError>(SeekError::Overflow),
        final(s).length == old(s).length,
        final(s).file == old(s).file,
{
}

/// A seek by a distance and then by the opposite one, where both succeed, brings a
/// reader back to where it was.
pub proof fn law_file_seek_there_and_back<F>(
    s: &mut ReadPos<F>,
    t: &mut ReadPos<F>,
    d: i64,
    there: Result<u64, SeekError>,
    back: Result<u64, SeekError>,
)
    requires
        d != i64::MIN,
        call_ensures(ReadPos::<F>::seek, (s, SeekFrom::Current(d)), there),
        *old(t) == *final(s),
        call_ensures(ReadPos::<F>::seek, (t, SeekFrom::Current((-d) as i64)), back),
        there is Ok,
    ensures
        back is Ok,
        *final(t) == *old(s),
{
}

/// A seek from the start of a file goes to that position, and one from the end to
/// that distance from the length that is known, whatever the position was.
pub proof fn law_file_seek_from_ends<F>(
    s: &mut ReadPos<F>,
    t: &mut ReadPos<F>,
    p: u64,
    d: i64,
    r: Result<u64, SeekError>,
    e: Result<u64, SeekError>,
)
    requires
        call_ensures(ReadPos::<F>::seek, (s, SeekFrom::Start(p)), r),
        call_ensures(ReadPos::<F>::seek, (t, SeekFrom::End(d)), e),
    ensures
        r == Ok::<u64, SeekError>(p) && final(s).pos == p,
        e is Ok <==> 0 <= old(t).length + d <= u64::MAX,
        e is Ok ==> final(t).pos == old(t).length + d && e->Ok_0 == final(t).pos,
        e is Err ==> *final(t) == *old(t),
        final(s).length == old(s).length && final(s).file == old(s).file,
        final(t).length == old(t).length && final(t).file == old(t).file,
{
}

/// A read at an offset of a slice covers the bytes of the file from that offset
/// after the start of the slice, as many as are asked for or as there are up to the
/// end of the slice. Positions are not involved.
pub proof fn law_slice_positioned_read<F>(s: &ReadSlice<F>, len: usize, offset: u64, r: FileRange)
    requires
        s.wf(),
        call_ensures(ReadSlice::<F>::pread, (s, len, offset), r),
    ensures
        r.len <= len,
        r.len > 0 ==> r.offset == s.start + offset && r.offset + r.len <= s.end,
        s.start + offset + len <= s.end ==> r.len == len,
        s.start + offset <= s.end < s.start + offset + len ==> r.len == s.end - s.start - offset,
        s.start + offset >= s.end ==> r.len == 0,
{
}

/// A read of a slice covers what is next to come at its position, and moving past
/// what was read makes the next read start where that one ended.
pub proof fn law_slice_reads_follow<F>(
    s: &mut ReadSlice<F>,
    len: usize,
    more: usize,
    n: usize,
    r: FileRange,
    next: FileRange,
)
    requires
        old(s).wf(),
        call_ensures(ReadSlice::<F>::next_read, (&*old(s), len), r),
        n <= r.len,
        call_ensures(ReadSlice::<F>::advance, (s, n), ()),
        call_ensures(ReadSlice::<F>::next_read, (&*final(s), more), next),
    ensures
        r.offset == old(s).pos,
        old(s).pos < old(s).end && len > 0 ==> r.len > 0,
        r.len == len || old(s).pos + r.len == old(s).end || r.len == 0,
        r.len > 0 ==> r.offset + r.len <= old(s).end,
        next.offset == r.offset + n,
        final(s).pos == old(s).pos + n,
        final(s).start == old(s).start && final(s).end == old(s).end && final(s).file == old(s).file,
{
}

/// A read of a file covers what is asked for, at the position or at an offset, and
/// moving past what was read makes the next read start where that one ended.
pub proof fn law_file_reads_follow<F>(
    s: &mut ReadPos<F>,
    len: usize,
    offset: u64,
    n: usize,
    r: FileRange,
    at: FileRange,
    next: FileRange,
)
    requires
        call_ensures(ReadPos::<F>::next_read, (&*old(s), len), r),
        call_ensures(ReadPos::<F>::pread, (&*old(s), len, offset), at),
        old(s).pos + n <= u64::MAX,
        call_ensures(ReadPos::<F>::advance, (s, n), ()),
        call_ensures(ReadPos::<F>::next_read, (&*final(s), len), next),
    ensures
        r.offset == old(s).pos && r.len == len,
        at.offset == offset && at.len == len,
        next.offset == r.offset + n,
        final(s).length == old(s).length && final(s).file == old(s).file,
{
}

/// A new slice is at its start, and has the range that it was made for. A slice of
/// a slice is a range of the same file, counted from the start of the outer one.
pub proof fn law_new_slices<F: Clone>(
    file: F,
    start: u64,
    end: u64,
    s: ReadSlice<F>,
    from: u64,
    to: u64,
    inner: ReadSlice<F>,
    len: u64,
    empty: bool,
    at: u64,
)
    requires
        start <= end,
        from <= to <= end - start,
        call_ensures(ReadSlice::<F>::new, (file, start, end), s),
        call_ensures(ReadSlice::<F>::subslice, (&s, from, to), inner),
        call_ensures(ReadSlice::<F>::len, (&inner,), len),
        call_ensures(ReadSlice::<F>::is_empty, (&inner,), empty),
        call_ensures(ReadSlice::<F>::tell, (&inner,), at),
    ensures
        s.start == start && s.pos == start && s.end == end && s.file == file,
        inner.start == start + from && inner.end == start + to,
        len == to - from,
        empty <==> from == to,
        at == 0,
{
}

/// A new reader of a file is at position 0, and a slice of it has the range that it
/// was made for.
pub proof fn law_new_readers<F: Clone>(
    file: F,
    length: u64,
    s: ReadPos<F>,
    from: u64,
    to: u64,
    inner: ReadSlice<F>,
    len: u64,
    empty: bool,
    at: u64,
)
    requires
        from <= to,
        call_ensures(ReadPos::<F>::new, (file, length), s),
        call_ensures(ReadPos::<F>::subslice, (&s, from, to), inner),
        call_ensures(ReadPos::<F>::len, (&s,), len),
        call_ensures(ReadPos::<F>::is_empty, (&s,), empty),
        call_ensures(ReadPos::<F>::tell, (&s,), at),
    ensures
        at == 0,
        len == length,
        empty <==> length == 0,
        s.file == file,
        inner.start == from && inner.pos == from && inner.end == to,
{
}

/// A copy of a reader is at the start, wherever the reader is, and is of the same
/// file or range.
pub proof fn law_copies_start_over<F: Clone>(s: &ReadPos<F>, a: ReadPos<F>, t: &ReadSlice<F>, b: ReadSlice<F>)
    requires
        call_ensures(ReadPos::<F>::clone, (s,), a),
        call_ensures(ReadSlice::<F>::clone, (t,), b),
    ensures
        a.pos == 0 && a.length == s.length,
        b.pos == t.start && b.start == t.start && b.end == t.end,
{
}

/// The range to map is all of the slice.
pub proof fn law_slice_is_mapped_whole<F>(s: &ReadSlice<F>, r: FileRange)
    requires
        s.wf(),
        call_ensures(ReadSlice::<F>::mem_map, (s,), r),
    ensures
        r.offset == s.start && r.offset + r.len == s.end,
{
}

/// A move by a distance from an origin ends at their sum, if that is a position. A
/// slice cannot be left at its start. A move that fails changes nothing.
pub proof fn law_seek_from_origin<F>(
    s: &mut ReadSlice<F>,
    p: &mut ReadPos<F>,
    origin: u64,
    offset: i64,
    r: Result<u64, SeekError>,
    q: Result<u64, SeekError>,
)
    requires
        offset != i64::MIN,
        call_ensures(ReadSlice::<F>::seek_from, (s, origin, offset), r),
        call_ensures(ReadPos::<F>::seek_from, (p, origin, offset), q),
    ensures
        r is Ok <==> old(s).start <= origin + offset <= u64::MAX,
        r is Ok ==> final(s).pos == origin + offset && r->Ok_0 == origin + offset - old(s).start,
        r is Err ==> *final(s) == *old(s),
        r matches Err(e) ==> (e is Overflow <==> origin + offset > u64::MAX) && (e is Negative
            <==> origin + offset < old(
            s).start),
        final(s).start == old(s).start && final(s).end == old(s).end && final(s).file == old(s).file,
        q is Ok <==> 0 <= origin + offset <= u64::MAX,
        q is Ok ==> final(p).pos == origin + offset && q->Ok_0 == origin + offset,
        q is Err ==> *final(p) == *old(p),
        q matches Err(e) ==> (e is Overflow <==> origin + offset > u64::MAX) && (e is NegativeAbsolute <==> origin
            + offset < 0),
        final(p).length == old(p).length && final(p).file == old(p).file,
{
}

/// A slice is moved to any position that is not before its start. A read at a
/// position covers as many bytes as are asked for, but none after its end.
pub proof fn law_absolute_positions<F>(
    s: &mut ReadSlice<F>,
    abspos: u64,
    r: Result<u64, SeekError>,
    len: usize,
    range: FileRange,
)
    requires
        call_ensures(ReadSlice::<F>::seek_to, (s, abspos), r),
        call_ensures(ReadSlice::<F>::pread_abs, (&*old(s), len, abspos), range),
    ensures
        r is Ok <==> abspos >= old(s).start,
        r is Ok ==> r->Ok_0 == abspos - old(s).start && final(s).pos == abspos,
        r is Err ==> r->Err_0 is Negative && *final(s) == *old(s),
        final(s).start == old(s).start && final(s).end == old(s).end && final(s).file == old(s).file,
        range.offset == abspos,
        abspos + len <= old(s).end ==> range.len == len,
        abspos + len > old(s).end && abspos <= old(s).end ==> range.len == old(s).end - abspos,
        abspos > old(s).end ==> range.len == 0,
{
}

/// The description of each failure to seek.
pub proof fn law_seek_messages(e: SeekError, s: String)
    requires
        call_ensures(SeekError::message, (&e,), s),
    ensures
        e is NegativeAbsolute ==> s@ == "Attempted seek to a negative absolute position"@,
        e is Negative ==> s@ == "Attempted seek to a negative position"@,
        e is Overflow ==> s@ == "Attempted seek would overflow u64 position"@,
{
}

} // verus!
