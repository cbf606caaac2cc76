//! Bodies: logical buffers of bytes that may or may not be resident in RAM.
//!
//! A [`BodySink`] is a body that is being written, a [`BodyImage`] one that is
//! ready to be read. Either keeps its bytes in RAM, or in a (temporary) file
//! whose handle `F` it holds, or in a memory map `M` of such a file. Which bytes
//! go where and when is decided here. Files are opened, written and mapped by
//! the owner of the handles, who is told exactly what to do and reports back.
use bytes::Bytes;
use vstd::prelude::*;
use vstd::string::*;

use crate::buf::{as_slice, bytes_content, joined, lemma_joined_add, lemma_joined_first, same_parts, Buffers};
use crate::read_pos::ReadSlice;
use crate::text::with_decimal;
use crate::tune::Tunables;

verus! {

/// `std::io::Error`.
#[verifier::external_type_specification]
#[verifier::external_body]
pub struct ExIoError(std::io::Error);

/// The text of an `std::io::Error`, by its `Display` implementation. Nothing is
/// claimed of it, as for an error of the operating system it is the system that
/// describes it.
#[verifier::external_body]
fn io_error_text(e: &std::io::Error) -> (s: String) {
    format!("{}", e)
}

/// An input or output failure.
#[derive(Debug)]
pub enum IoError {
    /// The input ended before the expected number of bytes.
    UnexpectedEof,
    /// A failure reported by the file or the decoder.
    Outside(std::io::Error),
}

impl IoError {
    /// A description for the user.
    pub fn message(&self) -> (s: String)
        ensures
            self is UnexpectedEof ==> s@ == "failed to fill whole buffer"@,
    {
        match self {
            IoError::UnexpectedEof => "failed to fill whole buffer".to_owned(),
            IoError::Outside(e) => io_error_text(e),
        }
    }
}

/// Failures with a [`BodySink`] or a [`BodyImage`].
#[derive(Debug)]
#[non_exhaustive]
pub enum BodyError {
    /// The length of [`Tunables::max_body`] is exceeded. Holds the length that
    /// was seen when this was found.
    BodyTooLong(u64),
    /// A failure with a temporary file or a memory map.
    Io(IoError),
}

impl BodyError {
    /// A description for the user.
    pub fn message(&self) -> (s: String)
        ensures
            match *self {
                BodyError::BodyTooLong(l) => s@ == "Body length of "@ + crate::text::decimal(l as nat)
                    + "+ bytes exceeds Tunables::max_body"@,
                BodyError::Io(IoError::UnexpectedEof) => s@ == "Body I/O: "@
                    + "failed to fill whole buffer"@,
                BodyError::Io(_) => "Body I/O: "@.is_prefix_of(s@),
            },
    {
        match self {
            BodyError::BodyTooLong(l) => with_decimal(
                "Body length of ",
                *l,
                "+ bytes exceeds Tunables::max_body",
            ),
            BodyError::Io(e) => {
                let m = e.message();
                crate::text::concat("Body I/O: ", m.as_str())
            },
        }
    }
}

enum SinkState<F> {
    Ram(Buffers),
    FsWrite { file: F, len: u64, written: Ghost<Seq<u8>> },
}

/// A body in the process of being written.
///
/// In state `Ram` the bytes are in zero, one or many buffers. In state
/// `FsWrite` they are in a file.
pub struct BodySink<F> {
    state: SinkState<F>,
}

/// The buffers of a sink in RAM, on their way to a file.
///
/// The owner writes all of them, in order, to a new file and then hands the
/// file over by [`BodySink::written_back`].
pub struct WriteBack {
    bufs: Buffers,
}

impl View for WriteBack {
    type V = Seq<u8>;

    closed spec fn view(&self) -> Seq<u8> {
        self.bufs@
    }
}

impl WriteBack {
    /// Some buffers that are to be written to a new file.
    pub fn new(bufs: Buffers) -> (r: WriteBack)
        ensures
            r@ == bufs@,
    {
        WriteBack { bufs }
    }

    /// The buffers to write, in order.
    pub fn buffers(&self) -> (r: &Buffers)
        ensures
            r@ == self@,
    {
        &self.bufs
    }
}

impl<F> View for BodySink<F> {
    type V = Seq<u8>;

    closed spec fn view(&self) -> Seq<u8> {
        match self.state {
            SinkState::Ram(b) => b@,
            SinkState::FsWrite { written, .. } => written@,
        }
    }
}

impl<F> BodySink<F> {
    /// The length of a file is that of the bytes that were reported as written
    /// to it.
    #[verifier::type_invariant]
    spec fn inv(self) -> bool {
        match self.state {
            SinkState::Ram(_) => true,
            SinkState::FsWrite { len, written, .. } => len == written@.len(),
        }
    }

    /// Whether the bytes are in RAM.
    pub closed spec fn in_ram(&self) -> bool {
        self.state is Ram
    }

    /// The buffers of a sink in RAM.
    pub closed spec fn ram(&self) -> Buffers {
        self.state->Ram_0
    }

    /// The file of a sink that is not in RAM.
    pub closed spec fn the_file(&self) -> F {
        self.state->file
    }

    /// A new, empty sink in RAM.
    pub fn empty() -> (r: BodySink<F>)
        ensures
            r.in_ram(),
            r@ == Seq::<u8>::empty(),
    {
        BodySink::with_ram_buffers(0)
    }

    /// A new, empty sink in RAM, with room for buffers of 8 KiB up to an
    /// estimate of the size in bytes.
    pub fn with_ram(size_estimate: u64) -> (r: BodySink<F>)
        ensures
            r.in_ram(),
            r@ == Seq::<u8>::empty(),
    {
        if size_estimate == 0 {
            BodySink::empty()
        } else {
            let cap: usize = (size_estimate / 0x2000 + 1) as usize;
            BodySink::with_ram_buffers(cap)
        }
    }

    /// A new, empty sink in RAM, with room for a number of buffers.
    pub fn with_ram_buffers(capacity: usize) -> (r: BodySink<F>)
        ensures
            r.in_ram(),
            r@ == Seq::<u8>::empty(),
    {
        BodySink { state: SinkState::Ram(Buffers::with_capacity(capacity)) }
    }

    /// A new sink in a new, empty file.
    pub fn with_fs(file: F) -> (r: BodySink<F>)
        ensures
            !r.in_ram(),
            r.the_file() == file,
            r@ == Seq::<u8>::empty(),
    {
        BodySink { state: SinkState::FsWrite { file, len: 0, written: Ghost(Seq::empty()) } }
    }

    /// Whether in state `Ram`.
    pub fn is_ram(&self) -> (b: bool)
        ensures
            b == self.in_ram(),
    {
        match self.state {
            SinkState::Ram(_) => true,
            _ => false,
        }
    }

    /// Whether the body is empty.
    pub fn is_empty(&self) -> (b: bool)
        ensures
            b == (self@.len() == 0),
    {
        self.len() == 0
    }

    /// The current length of the body in bytes.
    pub fn len(&self) -> (n: u64)
        ensures
            n == self@.len(),
    {
        proof {
            use_type_invariant(self);
        }
        match &self.state {
            SinkState::Ram(b) => b.len(),
            SinkState::FsWrite { len, .. } => *len,
        }
    }

    /// The file of a sink in state `FsWrite`.
    pub fn file(&self) -> (r: Option<&F>)
        ensures
            r is Some == !self.in_ram(),
            r is Some ==> *r->0 == self.the_file(),
    {
        match &self.state {
            SinkState::Ram(_) => None,
            SinkState::FsWrite { file, .. } => Some(file),
        }
    }

    /// Save bytes, without a copy. In state `Ram` they are kept. In state
    /// `FsWrite` they are given back, to be written to the end of the file and
    /// then reported by [`BodySink::appended`], unless there are none.
    pub fn save(&mut self, buf: Bytes) -> (r: Option<Bytes>)
        requires
            old(self)@.len() + bytes_content(buf).len() <= u64::MAX,
        ensures
            old(self).in_ram() ==> {
                &&& r is None
                &&& final(self).in_ram()
                &&& final(self)@ == old(self)@ + bytes_content(buf)
                &&& final(self).ram().parts() == (if bytes_content(buf).len() == 0 {
                    old(self).ram().parts()
                } else {
                    old(self).ram().parts().push(buf)
                })
            },
            !old(self).in_ram() ==> {
                &&& *final(self) == *old(self)
                &&& r == (if bytes_content(buf).len() == 0 {
                    None
                } else {
                    Some(buf)
                })
            },
    {
        if self.is_ram() {
            let mut state = self.cut();
            if let SinkState::Ram(b) = &mut state {
                b.push(buf);
            }
            *self = BodySink { state };
            None
        } else if buf.len() == 0 {
            None
        } else {
            Some(buf)
        }
    }

    /// Save a copy of the bytes. Returns true where, in state `FsWrite`, they
    /// are to be written to the end of the file and then reported by
    /// [`BodySink::appended`].
    pub fn write_all(&mut self, buf: &[u8]) -> (r: bool)
        requires
            old(self)@.len() + buf@.len() <= u64::MAX,
        ensures
            r == (!old(self).in_ram() && buf@.len() > 0),
            old(self).in_ram() ==> {
                let parts = final(self).ram().parts();
                &&& final(self).in_ram()
                &&& final(self)@ == old(self)@ + buf@
                &&& buf@.len() == 0 ==> parts == old(self).ram().parts()
                &&& buf@.len() > 0 ==> {
                    &&& parts.len() == old(self).ram().parts().len() + 1
                    &&& parts.drop_last() == old(self).ram().parts()
                    &&& bytes_content(parts.last()) == buf@
                }
            },
            !old(self).in_ram() ==> *final(self) == *old(self),
    {
        if self.is_ram() {
            let _ = self.save(Bytes::copy_from_slice(buf));
            assert(buf@.len() > 0 ==> self.ram().parts().drop_last() =~= old(self).ram().parts());
            false
        } else {
            buf.len() > 0
        }
    }

    /// Report that bytes were written to the end of the file.
    pub fn appended(&mut self, buf: &[u8])
        requires
            !old(self).in_ram(),
            old(self)@.len() + buf@.len() <= u64::MAX,
        ensures
            !final(self).in_ram(),
            final(self).the_file() == old(self).the_file(),
            final(self)@ == old(self)@ + buf@,
    {
        proof {
            use_type_invariant(&*self);
        }
        let state = self.cut();
        if let SinkState::FsWrite { file, len, written } = state {
            *self = BodySink {
                state: SinkState::FsWrite {
                    file,
                    len: len + buf.len() as u64,
                    written: Ghost(written@ + buf@),
                },
            };
        }
    }

    /// Start to move a sink from RAM to a file. Nothing is to be done, and
    /// nothing changes, where it is in a file already. Otherwise the sink is
    /// left empty and in RAM, and stays so if the file cannot be written.
    pub fn write_back(&mut self) -> (r: Option<WriteBack>)
        ensures
            r is Some == old(self).in_ram(),
            old(self).in_ram() ==> {
                &&& r->0@ == old(self)@
                &&& final(self).in_ram()
                &&& final(self)@ == Seq::<u8>::empty()
            },
            !old(self).in_ram() ==> *final(self) == *old(self),
    {
        if self.is_ram() {
            match self.cut() {
                SinkState::Ram(bufs) => Some(WriteBack { bufs }),
                _ => None,
            }
        } else {
            None
        }
    }

    /// Continue with the file to which all of the buffers were written.
    pub fn written_back(&mut self, back: WriteBack, file: F)
        ensures
            !final(self).in_ram(),
            final(self).the_file() == file,
            final(self)@ == back@,
    {
        *self = BodySink {
            state: SinkState::FsWrite { file, len: back.bufs.len(), written: Ghost(back.bufs@) },
        };
    }

    /// Finish writing. The owner has flushed the file, if there is one. An
    /// empty file is replaced by an empty body in RAM.
    pub fn prepare<M>(self) -> (r: BodyImage<F, M>)
        ensures
            r@ == self@,
            r.in_ram() == (self.in_ram() || self@.len() == 0),
            r.in_ram() && self.in_ram() ==> r.ram() == self.ram(),
            !r.in_ram() ==> r.in_file() && r.the_file() == self.the_file(),
    {
        proof {
            use_type_invariant(&self);
        }
        match self.state {
            SinkState::Ram(bufs) => BodyImage { state: ImageState::Ram(bufs) },
            SinkState::FsWrite { file, len, written } => {
                if len == 0 {
                    assert(written@ =~= Seq::<u8>::empty());
                    BodyImage::empty()
                } else {
                    BodyImage { state: ImageState::FsRead { file, len, content: written } }
                }
            },
        }
    }

    /// Swap with an empty sink in RAM.
    fn cut(&mut self) -> (r: SinkState<F>)
        ensures
            r == old(self).state,
            final(self).in_ram(),
            final(self)@ == Seq::<u8>::empty(),
    {
        let mut whole = BodySink::empty();
        core::mem::swap(&mut whole, self);
        whole.state
    }
}

impl<F> Default for BodySink<F> {
    fn default() -> (r: BodySink<F>)
        ensures
            r.in_ram(),
            r@ == Seq::<u8>::empty(),
    {
        BodySink::empty()
    }
}

enum ImageState<F, M> {
    Ram(Buffers),
    FsRead { file: F, len: u64, content: Ghost<Seq<u8>> },
    FsReadSlice { rslice: ReadSlice<F>, content: Ghost<Seq<u8>> },
    MemMap { map: M, len: u64, content: Ghost<Seq<u8>> },
}

/// A body that is ready to be read.
///
/// In state `Ram` the bytes are in zero, one or many buffers. In state `FsRead`
/// they are in a file, or in a range of one. In state `MemMap` they are in a
/// memory map.
///
/// The view of an image is its bytes. Of an image of a file that was not
/// written by way of a [`BodySink`], nothing but their number is known.
pub struct BodyImage<F, M> {
    state: ImageState<F, M>,
}

impl<F, M> View for BodyImage<F, M> {
    type V = Seq<u8>;

    closed spec fn view(&self) -> Seq<u8> {
        match self.state {
            ImageState::Ram(b) => b@,
            ImageState::FsRead { content, .. } => content@,
            ImageState::FsReadSlice { content, .. } => content@,
            ImageState::MemMap { content, .. } => content@,
        }
    }
}

/// Some bytes of the given number, of which nothing else is known.
pub closed spec fn unknown_bytes(n: nat) -> Seq<u8> {
    Seq::new(n, |i: int| arbitrary())
}

/// A range of a file that is to be mapped into memory.
pub struct MapRequest<'a, F> {
    pub file: &'a F,
    pub offset: u64,
    pub len: u64,
}

/// The parts of an image, by state.
pub enum ExplodedImage<F, M> {
    Ram(Vec<Bytes>),
    FsRead(ReadSlice<F>),
    MemMap(M),
}

impl<F, M> BodyImage<F, M> {
    /// The recorded length is that of the bytes, and is 0 only in RAM.
    #[verifier::type_invariant]
    spec fn inv(self) -> bool {
        match self.state {
            ImageState::Ram(_) => true,
            ImageState::FsRead { len, content, .. } => len == content@.len() && len > 0,
            ImageState::FsReadSlice { rslice, content } => {
                &&& rslice.wf()
                &&& rslice.end - rslice.start == content@.len()
                &&& rslice.start < rslice.end
            },
            ImageState::MemMap { len, content, .. } => len == content@.len() && len > 0,
        }
    }

    /// Whether the bytes are in RAM.
    pub closed spec fn in_ram(&self) -> bool {
        self.state is Ram
    }

    /// The buffers of an image in RAM.
    pub closed spec fn ram(&self) -> Buffers {
        self.state->Ram_0
    }

    /// Whether the bytes are all of a file.
    pub closed spec fn in_file(&self) -> bool {
        self.state is FsRead
    }

    /// The file of an image that is all of a file.
    pub closed spec fn the_file(&self) -> F {
        self.state->FsRead_file
    }

    /// Whether the bytes are in a range of a file.
    pub closed spec fn in_slice(&self) -> bool {
        self.state is FsReadSlice
    }

    /// The range of a file.
    pub closed spec fn the_slice(&self) -> ReadSlice<F> {
        self.state->rslice
    }

    /// Whether the bytes are in a memory map.
    pub closed spec fn in_map(&self) -> bool {
        self.state is MemMap
    }

    /// The memory map.
    pub closed spec fn the_map(&self) -> M {
        self.state->map
    }

    /// A body is in exactly one state.
    pub proof fn lemma_one_state(&self)
        ensures
            self.in_ram() ==> !self.in_file() && !self.in_slice() && !self.in_map(),
            self.in_file() ==> !self.in_slice() && !self.in_map(),
            self.in_slice() ==> !self.in_map(),
            self.in_ram() || self.in_file() || self.in_slice() || self.in_map(),
    {
    }

    /// The bytes of a body in RAM are those of its buffers.
    pub proof fn lemma_ram(&self)
        requires
            self.in_ram(),
        ensures
            self@ == self.ram()@,
            self@ == joined(self.ram().parts()),
    {
        self.ram().lemma_joined();
    }

    /// An empty body, in RAM.
    pub fn empty() -> (r: BodyImage<F, M>)
        ensures
            r.in_ram(),
            r@ == Seq::<u8>::empty(),
    {
        BodyImage { state: ImageState::Ram(Buffers::with_capacity(0)) }
    }

    /// The bytes of an existing file, of known length. With a length of zero
    /// this is an empty body in RAM.
    pub fn from_file(file: F, length: u64) -> (r: BodyImage<F, M>)
        ensures
            r@.len() == length,
            length == 0 ==> r.in_ram(),
            length > 0 ==> r.in_file() && r.the_file() == file,
    {
        if length > 0 {
            BodyImage {
                state: ImageState::FsRead {
                    file,
                    len: length,
                    content: Ghost(unknown_bytes(length as nat)),
                },
            }
        } else {
            BodyImage::empty()
        }
    }

    /// A single buffer, in RAM.
    pub fn from_slice(bytes: Bytes) -> (r: BodyImage<F, M>)
        ensures
            r.in_ram(),
            r@ == bytes_content(bytes),
            r.ram().parts().len() <= 1,
    {
        let mut bufs = Buffers::with_capacity(1);
        if bytes.len() > 0 {
            bufs.push(bytes);
        }
        assert(bufs@ =~= bytes_content(bytes));
        BodyImage { state: ImageState::Ram(bufs) }
    }

    /// The bytes of some buffers, in RAM.
    pub fn from_buffers(bufs: Buffers) -> (r: BodyImage<F, M>)
        ensures
            r.in_ram(),
            r.ram() == bufs,
            r@ == bufs@,
    {
        BodyImage { state: ImageState::Ram(bufs) }
    }

    /// The bytes of a range of a file. With an empty range this is an empty
    /// body in RAM.
    pub fn from_read_slice(rslice: ReadSlice<F>) -> (r: BodyImage<F, M>)
        requires
            rslice.wf(),
        ensures
            r@.len() == rslice.end - rslice.start,
            rslice.start == rslice.end ==> r.in_ram(),
            rslice.start < rslice.end ==> r.in_slice() && r.the_slice() == rslice,
    {
        let len: u64 = rslice.len();
        if len > 0 {
            BodyImage {
                state: ImageState::FsReadSlice {
                    rslice,
                    content: Ghost(unknown_bytes(len as nat)),
                },
            }
        } else {
            BodyImage::empty()
        }
    }

    /// Whether in state `Ram`.
    pub fn is_ram(&self) -> (b: bool)
        ensures
            b == self.in_ram(),
    {
        match self.state {
            ImageState::Ram(_) => true,
            _ => false,
        }
    }

    /// Whether in state `MemMap`.
    pub fn is_mem_map(&self) -> (b: bool)
        ensures
            b == self.in_map(),
    {
        match self.state {
            ImageState::MemMap { .. } => true,
            _ => false,
        }
    }

    /// The length of the body in bytes.
    pub fn len(&self) -> (n: u64)
        ensures
            n == self@.len(),
    {
        proof {
            use_type_invariant(self);
        }
        match &self.state {
            ImageState::Ram(b) => b.len(),
            ImageState::FsRead { len, .. } => *len,
            ImageState::FsReadSlice { rslice, .. } => rslice.len(),
            ImageState::MemMap { len, .. } => *len,
        }
    }

    /// Whether the body is empty.
    pub fn is_empty(&self) -> (b: bool)
        ensures
            b == (self@.len() == 0),
    {
        self.len() == 0
    }

    /// The file and the range of it to map into memory. `None` where there is
    /// nothing to do, in states `Ram` and `MemMap`. The owner maps the range,
    /// and hands over the map by [`BodyImage::mapped`].
    pub fn mem_map(&self) -> (r: Option<MapRequest<'_, F>>)
        ensures
            r is Some == (self.in_file() || self.in_slice()),
            self.in_file() ==> {
                &&& *r->0.file == self.the_file()
                &&& r->0.offset == 0
                &&& r->0.len == self@.len()
                &&& r->0.len > 0
            },
            self.in_slice() ==> {
                &&& *r->0.file == self.the_slice().file
                &&& r->0.offset == self.the_slice().start
                &&& r->0.len == self@.len()
                &&& r->0.len > 0
            },
    {
        proof {
            use_type_invariant(self);
        }
        match &self.state {
            ImageState::FsRead { file, len, .. } => Some(MapRequest { file, offset: 0, len: *len }),
            ImageState::FsReadSlice { rslice, .. } => Some(MapRequest { file: &rslice.file, offset: rslice.start, len: rslice.len() }),
            _ => None,
        }
    }

    /// Continue with a memory map of the file. A body in RAM, or mapped
    /// already, is left as it is.
    pub fn mapped(&mut self, map: M)
        ensures
            final(self)@ == old(self)@,
            old(self).in_file() || old(self).in_slice() ==> final(self).in_map() && final(self).the_map() == map,
            !(old(self).in_file() || old(self).in_slice()) ==> *final(self) == *old(self),
    {
        proof {
            use_type_invariant(&*self);
        }
        let ghost before = *self;
        match self.cut() {
            ImageState::FsRead { len, content, .. } => {
                *self = BodyImage { state: ImageState::MemMap { map, len, content } };
            },
            ImageState::FsReadSlice { rslice, content } => {
                *self = BodyImage { state: ImageState::MemMap { map, len: rslice.len(), content } };
            },
            ImageState::Ram(b) => {
                *self = BodyImage { state: ImageState::Ram(b) };
                assert(*self == before);
            },
            ImageState::MemMap { map: m, len, content } => {
                *self = BodyImage { state: ImageState::MemMap { map: m, len, content } };
                assert(*self == before);
            },
        }
    }

    /// If in RAM with 2 or more buffers, copy them into one. Other bodies are
    /// left as they are.
    pub fn gather(&mut self)
        ensures
            final(self)@ == old(self)@,
            old(self).in_ram() == final(self).in_ram(),
            old(self).in_ram() ==> final(self).ram().parts().len() <= 1,
            !(old(self).in_ram() && old(self).ram().parts().len() > 1) ==> *final(self) == *old(self),
    {
        let scattered = match &self.state {
            ImageState::Ram(b) => b.count() > 1,
            _ => false,
        };
        if scattered {
            if let ImageState::Ram(b) = self.cut() {
                let one = b.gathered();
                let mut bufs = Buffers::with_capacity(1);
                if b.len() > 0 {
                    bufs.push(one);
                }
                assert(bufs@ =~= b@);
                *self = BodyImage { state: ImageState::Ram(bufs) };
            }
        }
    }

    /// A reader of the body, from its start.
    pub fn reader<'a>(&'a self) -> (r: BodyReader<'a, F, M>) where F: Clone
        ensures
            match r {
                BodyReader::Contiguous(c) => self.in_ram() && self.ram().parts().len() <= 1 && c.rest()
                    == self@ && c.whole() == self@,
                BodyReader::Scattered(g) => self.in_ram() && self.ram().parts().len() > 1 && g.rest()
                    == self@ && g.wf(),
                BodyReader::FileSlice(rs) => {
                    &&& self.in_file() || self.in_slice()
                    &&& rs.wf()
                    &&& rs.pos == rs.start
                    &&& rs.end - rs.start == self@.len()
                    &&& self.in_file() ==> rs.start == 0 && cloned::<F>(self.the_file(), rs.file)
                    &&& self.in_slice() ==> rs.start == self.the_slice().start && cloned::<F>(
                        self.the_slice().file,
                        rs.file,
                    )
                },
                BodyReader::Mapped(m) => self.in_map() && *m == self.the_map(),
            },
    {
        proof {
            use_type_invariant(self);
        }
        match &self.state {
            ImageState::Ram(b) => {
                if b.count() == 0 {
                    let v = SliceReader::empty();
                    assert(b@ =~= v.whole());
                    BodyReader::Contiguous(v)
                } else if b.count() == 1 {
                    let v = SliceReader::new(as_slice(b.part(0)));
                    proof {
                        b.lemma_single();
                    }
                    BodyReader::Contiguous(v)
                } else {
                    BodyReader::Scattered(GatheringReader::new(b))
                }
            },
            ImageState::FsRead { file, len, .. } => {
                BodyReader::FileSlice(ReadSlice::new(file.clone(), 0, *len))
            },
            ImageState::FsReadSlice { rslice, .. } => BodyReader::FileSlice(rslice.clone()),
            ImageState::MemMap { map, .. } => BodyReader::Mapped(map),
        }
    }

    /// Consume the image, for the parts that it is made of.
    pub fn explode(self) -> (r: ExplodedImage<F, M>)
        ensures
            match r {
                ExplodedImage::Ram(v) => {
                    &&& self.in_ram()
                    &&& joined(v@) == self@
                    &&& v@ == self.ram().parts()
                    &&& forall|i: int| 0 <= i < v@.len() ==> bytes_content(#[trigger] v@[i]).len() > 0
                },
                ExplodedImage::FsRead(rs) => {
                    &&& self.in_file() || self.in_slice()
                    &&& rs.wf()
                    &&& rs.end - rs.start == self@.len()
                    &&& self.in_file() ==> rs == (ReadSlice {
                        start: 0,
                        pos: 0,
                        end: self@.len() as u64,
                        file: self.the_file(),
                    })
                    &&& self.in_slice() ==> rs == self.the_slice()
                },
                ExplodedImage::MemMap(m) => self.in_map() && m == self.the_map(),
            },
    {
        proof {
            use_type_invariant(&self);
        }
        match self.state {
            ImageState::Ram(b) => ExplodedImage::Ram(b.into_parts()),
            ImageState::FsRead { file, len, .. } => ExplodedImage::FsRead(ReadSlice::new(file, 0, len)),
            ImageState::FsReadSlice { rslice, .. } => ExplodedImage::FsRead(rslice),
            ImageState::MemMap { map, .. } => ExplodedImage::MemMap(map),
        }
    }

    /// The buffers of a body in RAM, or else the image unchanged.
    pub fn into_buffers(self) -> (r: Result<Buffers, BodyImage<F, M>>)
        ensures
            r is Ok == self.in_ram(),
            r is Ok ==> r->Ok_0 == self.ram() && r->Ok_0@ == self@,
            r is Err ==> r->Err_0 == self,
    {
        proof {
            use_type_invariant(&self);
        }
        match self.state {
            ImageState::Ram(b) => Ok(b),
            state => Err(BodyImage { state }),
        }
    }

    /// Append a copy of a body in RAM to a vector, and return its length.
    /// `None` where the body is not in RAM, and has to be read from its file or
    /// map by way of [`BodyImage::reader`].
    pub fn write_to(&self, out: &mut Vec<u8>) -> (r: Option<u64>)
        ensures
            r == (if self.in_ram() {
                Some(self@.len() as u64)
            } else {
                None
            }),
            final(out)@ == (if self.in_ram() {
                old(out)@ + self@
            } else {
                old(out)@
            }),
    {
        match &self.state {
            ImageState::Ram(b) => {
                b.append_to(out);
                Some(b.len())
            },
            _ => None,
        }
    }

    /// Swap with an empty body in RAM.
    fn cut(&mut self) -> (r: ImageState<F, M>)
        ensures
            r == old(self).state,
            final(self).in_ram(),
            final(self)@ == Seq::<u8>::empty(),
    {
        let mut whole = BodyImage::empty();
        core::mem::swap(&mut whole, self);
        whole.state
    }
}

impl<F, M> Default for BodyImage<F, M> {
    fn default() -> (r: BodyImage<F, M>)
        ensures
            r.in_ram(),
            r@ == Seq::<u8>::empty(),
    {
        BodyImage::empty()
    }
}

impl<F: Clone, M: Clone> Clone for BodyImage<F, M> {
    /// A shallow copy: buffers, file and map are shared.
    fn clone(&self) -> (r: BodyImage<F, M>)
        ensures
            r@ == self@,
            r.in_ram() == self.in_ram(),
            r.in_file() == self.in_file(),
            r.in_slice() == self.in_slice(),
            r.in_map() == self.in_map(),
            r.in_ram() ==> same_parts(r.ram().parts(), self.ram().parts()),
            r.in_file() ==> cloned::<F>(self.the_file(), r.the_file()),
            r.in_slice() ==> {
                &&& r.the_slice().start == self.the_slice().start
                &&& r.the_slice().pos == self.the_slice().start
                &&& r.the_slice().end == self.the_slice().end
                &&& cloned::<F>(self.the_slice().file, r.the_slice().file)
            },
            r.in_map() ==> cloned::<M>(self.the_map(), r.the_map()),
    {
        proof {
            use_type_invariant(self);
        }
        match &self.state {
            ImageState::Ram(b) => BodyImage { state: ImageState::Ram(b.clone()) },
            ImageState::FsRead { file, len, content } => BodyImage {
                state: ImageState::FsRead { file: file.clone(), len: *len, content: Ghost(content@) },
            },
            ImageState::FsReadSlice { rslice, content } => BodyImage {
                state: ImageState::FsReadSlice { rslice: rslice.clone(), content: Ghost(content@) },
            },
            ImageState::MemMap { map, len, content } => BodyImage {
                state: ImageState::MemMap { map: map.clone(), len: *len, content: Ghost(content@) },
            },
        }
    }
}

/// Where a body that was found in some input is to be kept.
pub enum BodyPlan {
    /// In RAM.
    Ram(Buffers),
    /// In a new temporary file, to which the buffers are to be written.
    Fs(Buffers),
    /// Where it is: in the range `start..end` of the input file.
    Slice { start: u64, end: u64 },
}

impl BodyPlan {
    /// The number of bytes of the body.
    pub open spec fn size(&self) -> int {
        match *self {
            BodyPlan::Ram(b) => b@.len() as int,
            BodyPlan::Fs(b) => b@.len() as int,
            BodyPlan::Slice { start, end } => end - start,
        }
    }

    /// A range does not end before it starts.
    pub open spec fn wf(&self) -> bool {
        *self matches BodyPlan::Slice { start, end } ==> start <= end
    }

    /// The bytes of the body, where `input` is the content of the input file.
    pub open spec fn bytes(&self, input: Seq<u8>) -> Seq<u8> {
        match *self {
            BodyPlan::Ram(b) => b@,
            BodyPlan::Fs(b) => b@,
            BodyPlan::Slice { start, end } => input.subrange(start as int, end as int),
        }
    }

    /// The number of bytes of the body.
    pub fn len(&self) -> (n: u64)
        requires
            self.wf(),
        ensures
            n == self.size(),
    {
        match self {
            BodyPlan::Ram(b) => b.len(),
            BodyPlan::Fs(b) => b.len(),
            BodyPlan::Slice { start, end } => *end - *start,
        }
    }

    /// Whether the body is empty.
    pub fn is_empty(&self) -> (b: bool)
        requires
            self.wf(),
        ensures
            b == (self.size() == 0),
    {
        self.len() == 0
    }

    /// Whether the body is to be kept in RAM.
    pub fn is_ram(&self) -> (b: bool)
        ensures
            b == (self is Ram),
    {
        match self {
            BodyPlan::Ram(_) => true,
            _ => false,
        }
    }

    /// The image of a body in RAM or in the given input file. A body that is to
    /// be kept in a new file is returned for the owner to write: the sink that
    /// [`BodySink::written_back`] then makes of it can be prepared.
    pub fn into_image<F, M>(self, input: F) -> (r: Result<BodyImage<F, M>, WriteBack>)
        requires
            self.wf(),
        ensures
            r is Err == self is Fs,
            match self {
                BodyPlan::Ram(b) => r->Ok_0.in_ram() && r->Ok_0@ == b@,
                BodyPlan::Fs(b) => r->Err_0@ == b@,
                BodyPlan::Slice { start, end } => {
                    &&& r->Ok_0@.len() == end - start
                    &&& start < end ==> r->Ok_0.in_slice() && r->Ok_0.the_slice() == (ReadSlice {
                        start,
                        pos: start,
                        end,
                        file: input,
                    })
                    &&& start == end ==> r->Ok_0.in_ram()
                },
            },
    {
        match self {
            BodyPlan::Ram(b) => Ok(BodyImage::from_buffers(b)),
            BodyPlan::Fs(bufs) => Err(WriteBack::new(bufs)),
            BodyPlan::Slice { start, end } => {
                Ok(BodyImage::from_read_slice(ReadSlice::new(input, start, end)))
            },
        }
    }
}

/// A reader of a [`BodyImage`] in any state.
pub enum BodyReader<'a, F, M> {
    /// The bytes of a single buffer. Also used for an empty body.
    Contiguous(SliceReader<'a>),
    /// The bytes of 2 or more buffers.
    Scattered(GatheringReader<'a>),
    /// A range of a file.
    FileSlice(ReadSlice<F>),
    /// A memory map, all of which is the body.
    Mapped(&'a M),
}

impl<'a, F, M> BodyReader<'a, F, M> {
    /// Append what is left of a body in RAM to a vector. `None` where it is
    /// not in RAM: then the owner of the file or map reads on.
    pub fn read_to_end(&mut self, out: &mut Vec<u8>) -> (r: Option<usize>)
        requires
            *old(self) is Scattered ==> old(self)->Scattered_0.wf(),
            *old(self) is Scattered ==> old(self)->Scattered_0.rest().len() <= usize::MAX,
        ensures
            match *old(self) {
                BodyReader::Contiguous(c) => r == Some(c.rest().len() as usize) && final(out)@ == old(
                    out,
                )@ + c.rest(),
                BodyReader::Scattered(g) => r == Some(g.rest().len() as usize) && final(out)@ == old(
                    out,
                )@ + g.rest(),
                _ => r is None && final(out)@ == old(out)@,
            },
            match *old(self) {
                BodyReader::Contiguous(c) => {
                    &&& *final(self) is Contiguous
                    &&& final(self)->Contiguous_0.rest() == Seq::<u8>::empty()
                    &&& final(self)->Contiguous_0.whole() == c.whole()
                },
                BodyReader::Scattered(_) => {
                    &&& *final(self) is Scattered
                    &&& final(self)->Scattered_0.wf()
                    &&& final(self)->Scattered_0.rest() == Seq::<u8>::empty()
                },
                _ => *final(self) == *old(self),
            },
    {
        match self {
            BodyReader::Contiguous(c) => {
                let n: usize = c.remaining();
                let _ = c.read(out, n);
                Some(n)
            },
            BodyReader::Scattered(g) => Some(g.read_to_end(out)),
            _ => None,
        }
    }
}

/// A body that is saved piece by piece is the concatenation of the pieces, and
/// has the sum of their lengths.
pub proof fn law_saved_in_order(parts: Seq<Bytes>, buf: Bytes)
    ensures
        joined(parts.push(buf)) == joined(parts) + bytes_content(buf),
        joined(parts.push(buf)).len() == joined(parts).len() + bytes_content(buf).len(),
{
    crate::buf::lemma_joined_push(parts, buf);
}

/// Two runs of buffers hold the same bytes whether they are joined as one run
/// or one after the other.
pub proof fn law_split_runs(a: Seq<Bytes>, b: Seq<Bytes>)
    ensures
        joined(a + b) == joined(a) + joined(b),
{
    lemma_joined_add(a, b);
}

/// A position in a contiguous run of bytes.
pub struct SliceReader<'a> {
    data: &'a [u8],
    pos: usize,
}

impl<'a> SliceReader<'a> {
    /// The position is within the bytes.
    #[verifier::type_invariant]
    spec fn inv(self) -> bool {
        self.pos <= self.data@.len()
    }

    /// All of the bytes.
    pub closed spec fn whole(&self) -> Seq<u8> {
        self.data@
    }

    /// The bytes not read yet.
    pub closed spec fn rest(&self) -> Seq<u8> {
        self.data@.skip(self.pos as int)
    }

    /// A reader of nothing.
    pub fn empty() -> (r: SliceReader<'a>)
        ensures
            r.whole() == Seq::<u8>::empty(),
            r.rest() == Seq::<u8>::empty(),
    {
        let data: &'a [u8] = &[];
        SliceReader { data, pos: 0 }
    }

    /// A reader at the start of some bytes.
    pub fn new(data: &'a [u8]) -> (r: SliceReader<'a>)
        ensures
            r.whole() == data@,
            r.rest() == data@,
    {
        let r = SliceReader { data, pos: 0 };
        assert(r.rest() =~= data@);
        r
    }

    /// All of the bytes, whatever the position.
    pub fn into_inner(self) -> (r: &'a [u8])
        ensures
            r@ == self.whole(),
    {
        self.data
    }

    /// The number of bytes not read yet.
    pub fn remaining(&self) -> (n: usize)
        ensures
            n == self.rest().len(),
    {
        proof {
            use_type_invariant(self);
        }
        self.data.len() - self.pos
    }

    /// Append up to `max` bytes to a vector, and return how many.
    pub fn read(&mut self, out: &mut Vec<u8>, max: usize) -> (n: usize)
        ensures
            n == (if max <= old(self).rest().len() {
                max as int
            } else {
                old(self).rest().len() as int
            }),
            final(out)@ == old(out)@ + old(self).rest().take(n as int),
            final(self).rest() == old(self).rest().skip(n as int),
            final(self).whole() == old(self).whole(),
    {
        proof {
            use_type_invariant(&*self);
        }
        let left: usize = self.data.len() - self.pos;
        let n: usize = if max <= left { max } else { left };
        let part = vstd::slice::slice_subrange(self.data, self.pos, self.pos + n);
        out.extend_from_slice(part);
        *self = SliceReader { data: self.data, pos: self.pos + n };
        proof {
            assert(part@ =~= old(self).rest().take(n as int));
            assert(self.rest() =~= old(self).rest().skip(n as int));
        }
        n
    }
}

/// A reader that presents a number of buffers as one run of bytes.
pub struct GatheringReader<'a> {
    bufs: &'a Buffers,
    next: usize,
    current: SliceReader<'a>,
}

impl<'a> GatheringReader<'a> {
    /// The next buffer is one of the buffers, or past the last.
    pub closed spec fn wf(&self) -> bool {
        self.next <= self.bufs.parts().len()
    }

    /// The bytes not read yet: those of the current buffer, then those of the
    /// buffers after it.
    pub closed spec fn rest(&self) -> Seq<u8> {
        self.current.rest() + joined(self.bufs.parts().skip(self.next as int))
    }

    /// A reader at the start of some buffers.
    pub fn new(bufs: &'a Buffers) -> (r: GatheringReader<'a>)
        ensures
            r.wf(),
            r.rest() == bufs@,
    {
        if bufs.count() > 0 {
            let first = bufs.part(0);
            let r = GatheringReader { bufs, next: 1, current: SliceReader::new(as_slice(first)) };
            proof {
                bufs.lemma_joined();
                lemma_joined_first(bufs.parts());
            }
            r
        } else {
            let r = GatheringReader { bufs, next: 0, current: SliceReader::empty() };
            proof {
                assert(bufs.parts().skip(0) =~= bufs.parts());
                bufs.lemma_joined();
                assert(r.rest() =~= bufs@);
            }
            r
        }
    }

    /// Move on to the next buffer. Returns false where there is none.
    pub fn pop(&mut self) -> (b: bool)
        requires
            old(self).wf(),
            old(self).at_boundary(),
        ensures
            final(self).wf(),
            final(self).rest() == old(self).rest(),
            b ==> !final(self).at_boundary(),
            b == (old(self).rest().len() > 0),
            !b ==> *final(self) == *old(self),
    {
        if self.next < self.bufs.count() {
            let i: usize = self.next;
            let b = self.bufs.part(i);
            *self = GatheringReader {
                bufs: self.bufs,
                next: i + 1,
                current: SliceReader::new(as_slice(b)),
            };
            proof {
                let tail = self.bufs.parts().skip(i as int);
                lemma_joined_first(tail);
                assert(tail.skip(1) =~= self.bufs.parts().skip(i + 1));
                assert(old(self).rest() =~= joined(tail));
            }
            true
        } else {
            assert(self.bufs.parts().skip(self.next as int) =~= Seq::<Bytes>::empty());
            false
        }
    }

    /// Whether the current buffer is used up.
    pub closed spec fn at_boundary(&self) -> bool {
        self.current.rest().len() == 0
    }

    /// Append up to `max` bytes to a vector, and return how many. As long as
    /// bytes are left at least one is read, and never more than there are in
    /// one buffer.
    pub fn read(&mut self, out: &mut Vec<u8>, max: usize) -> (n: usize)
        requires
            old(self).wf(),
        ensures
            final(self).wf(),
            n <= max,
            n <= old(self).rest().len(),
            max > 0 && old(self).rest().len() > 0 ==> n > 0,
            final(out)@ == old(out)@ + old(self).rest().take(n as int),
            final(self).rest() == old(self).rest().skip(n as int),
    {
        if self.current.remaining() == 0 && max > 0 {
            let _ = self.pop();
        }
        let ghost before = *self;
        let mut current = SliceReader::empty();
        core::mem::swap(&mut current, &mut self.current);
        let n: usize = current.read(out, max);
        self.current = current;
        proof {
            assert(before.rest().take(n as int) =~= before.current.rest().take(n as int));
            assert(self.rest() =~= before.rest().skip(n as int));
        }
        n
    }

    /// Append all that is left to a vector, and return how much it was.
    pub fn read_to_end(&mut self, out: &mut Vec<u8>) -> (n: usize)
        requires
            old(self).wf(),
            old(self).rest().len() <= usize::MAX,
        ensures
            final(self).wf(),
            n == old(self).rest().len(),
            final(out)@ == old(out)@ + old(self).rest(),
            final(self).rest() == Seq::<u8>::empty(),
    {
        let mut total: usize = 0;
        let mut going = true;
        while going
            invariant
                self.wf(),
                old(self).rest().len() <= usize::MAX,
                total <= old(self).rest().len(),
                out@ == old(out)@ + old(self).rest().take(total as int),
                self.rest() == old(self).rest().skip(total as int),
                !going ==> self.rest().len() == 0,
            decreases old(self).rest().len() - total, going as int,
        {
            let n: usize = self.read(out, usize::MAX);
            proof {
                assert(old(self).rest().take(total as int) + old(self).rest().skip(total as int).take(
                    n as int,
                ) =~= old(self).rest().take(total + n));
                assert(old(self).rest().skip(total as int).skip(n as int) =~= old(self).rest().skip(
                    total + n,
                ));
            }
            total = total + n;
            going = n > 0;
        }
        assert(old(self).rest().take(total as int) =~= old(self).rest());
        total
    }
}

/// The descriptions of failures.
pub proof fn law_body_messages(io: IoError, s: String, e: BodyError, t: String)
    requires
        call_ensures(IoError::message, (&io,), s),
        call_ensures(BodyError::message, (&e,), t),
    ensures
        io is UnexpectedEof ==> s@ == "failed to fill whole buffer"@,
        e matches BodyError::BodyTooLong(l) ==> t@ == "Body length of "@ + crate::text::decimal(l as nat)
            + "+ bytes exceeds Tunables::max_body"@,
        e == BodyError::Io(IoError::UnexpectedEof) ==> t@ == "Body I/O: "@ + "failed to fill whole buffer"@,
        e is Io ==> "Body I/O: "@.is_prefix_of(t@),
{
    if e == BodyError::Io(IoError::UnexpectedEof) {
        assert("Body I/O: "@.is_prefix_of("Body I/O: "@ + "failed to fill whole buffer"@));
    }
}

/// A new sink is empty and in RAM, unless it is made for a file.
pub proof fn law_new_sinks<F>(
    a: BodySink<F>,
    b: BodySink<F>,
    c: BodySink<F>,
    d: BodySink<F>,
    e: BodySink<F>,
    size: u64,
    capacity: usize,
    file: F,
    s: BodySink<F>,
    in_ram: bool,
    n: u64,
    empty: bool,
    handle: Option<&F>,
)
    requires
        call_ensures(BodySink::<F>::empty, (), a),
        call_ensures(BodySink::<F>::with_ram, (size,), b),
        call_ensures(BodySink::<F>::with_ram_buffers, (capacity,), c),
        call_ensures(<BodySink<F> as Default>::default, (), d),
        call_ensures(BodySink::<F>::with_fs, (file,), e),
        s == a || s == b || s == c || s == d || s == e,
        call_ensures(BodySink::<F>::is_ram, (&s,), in_ram),
        call_ensures(BodySink::<F>::len, (&s,), n),
        call_ensures(BodySink::<F>::is_empty, (&s,), empty),
        call_ensures(BodySink::<F>::file, (&s,), handle),
    ensures
        n == 0,
        empty,
        s@ == Seq::<u8>::empty(),
        s == a || s == b || s == c || s == d ==> in_ram && handle is None,
        s == e ==> !in_ram && handle == Some(&file),
{
}

/// A sink is empty exactly if its length is zero, and has a file exactly if it is
/// not in RAM.
pub proof fn law_sink_state<F>(s: BodySink<F>, in_ram: bool, n: u64, empty: bool, handle: Option<&F>)
    requires
        call_ensures(BodySink::<F>::is_ram, (&s,), in_ram),
        call_ensures(BodySink::<F>::len, (&s,), n),
        call_ensures(BodySink::<F>::is_empty, (&s,), empty),
        call_ensures(BodySink::<F>::file, (&s,), handle),
    ensures
        n == s@.len(),
        empty <==> n == 0,
        in_ram <==> handle is None,
{
}

/// What is saved to a sink in RAM is what it ends with when it is read, and stays
/// in RAM. This is so of a buffer and of a copy of some bytes.
pub proof fn law_saved_in_ram<F, M>(
    s: &mut BodySink<F>,
    t: &mut BodySink<F>,
    buf: Bytes,
    data: &[u8],
    left: Option<Bytes>,
    to_write: bool,
    before: BodyImage<F, M>,
    image: BodyImage<F, M>,
    other: BodyImage<F, M>,
    out: &mut Vec<u8>,
    saved: &mut Vec<u8>,
    copied: &mut Vec<u8>,
    n: Option<u64>,
    m: Option<u64>,
    k: Option<u64>,
)
    requires
        call_ensures(BodySink::<F>::is_ram, (&*old(s),), true),
        *old(t) == *old(s),
        data@ == bytes_content(buf),
        call_ensures(BodySink::<F>::save, (s, buf), left),
        call_ensures(BodySink::<F>::write_all, (t, data), to_write),
        call_ensures(BodySink::<F>::prepare::<M>, (*old(s),), before),
        call_ensures(BodySink::<F>::prepare::<M>, (*final(s),), image),
        call_ensures(BodySink::<F>::prepare::<M>, (*final(t),), other),
        old(s)@.len() + bytes_content(buf).len() <= u64::MAX,
        old(saved)@ == old(out)@,
        old(copied)@ == old(out)@,
        call_ensures(BodyImage::<F, M>::write_to, (&before, out), n),
        call_ensures(BodyImage::<F, M>::write_to, (&image, saved), m),
        call_ensures(BodyImage::<F, M>::write_to, (&other, copied), k),
    ensures
        left is None,
        !to_write,
        n is Some && m is Some && k is Some,
        final(saved)@ == final(out)@ + bytes_content(buf),
        final(copied)@ == final(out)@ + bytes_content(buf),
        final(out)@.len() == old(out)@.len() + n->0,
        m == k,
{
}

/// What is saved to a sink in a file is given back to be written, unless there is
/// nothing. The sink stays as it is until that is reported, and is then as much
/// longer, and still in this file.
pub proof fn law_saved_in_file<F>(
    s: &mut BodySink<F>,
    t: &mut BodySink<F>,
    u: &mut BodySink<F>,
    buf: Bytes,
    data: &[u8],
    left: Option<Bytes>,
    to_write: bool,
    n: u64,
    m: u64,
    file: &F,
    same: Option<&F>,
)
    requires
        call_ensures(BodySink::<F>::file, (&*old(s),), Some(file)),
        *old(t) == *old(s),
        *old(u) == *old(s),
        data@ == bytes_content(buf),
        call_ensures(BodySink::<F>::len, (&*old(s),), n),
        call_ensures(BodySink::<F>::save, (s, buf), left),
        call_ensures(BodySink::<F>::write_all, (t, data), to_write),
        call_ensures(BodySink::<F>::appended, (u, data), ()),
        call_ensures(BodySink::<F>::len, (&*final(u),), m),
        call_ensures(BodySink::<F>::file, (&*final(u),), same),
    ensures
        left == (if data@.len() == 0 {
            None::<Bytes>
        } else {
            Some(buf)
        }),
        to_write <==> data@.len() > 0,
        *final(s) == *old(s),
        *final(t) == *old(s),
        m == n + data@.len(),
        same == Some(file),
        final(u)@ == old(u)@ + data@,
{
}

/// A sink in RAM is moved to a file with all that it holds: the buffers that are
/// to be written are its bytes, and the sink then has the file and as many bytes.
/// A sink in a file stays as it is.
pub proof fn law_moved_to_file<F>(
    s: &mut BodySink<F>,
    t: &mut BodySink<F>,
    back: Option<WriteBack>,
    bufs: &Buffers,
    all: Bytes,
    file: F,
    was_ram: bool,
    len: u64,
    between: u64,
    n: u64,
    handle: Option<&F>,
)
    requires
        call_ensures(BodySink::<F>::is_ram, (&*old(s),), was_ram),
        call_ensures(BodySink::<F>::len, (&*old(s),), len),
        call_ensures(BodySink::<F>::write_back, (s,), back),
        call_ensures(BodySink::<F>::len, (&*final(s),), between),
        *old(t) == *final(s),
        back is Some ==> {
            &&& call_ensures(WriteBack::buffers, (&back->0,), bufs)
            &&& call_ensures(Buffers::gathered, (bufs,), all)
            &&& call_ensures(BodySink::<F>::written_back, (t, back->0, file), ())
            &&& call_ensures(BodySink::<F>::len, (&*final(t),), n)
            &&& call_ensures(BodySink::<F>::file, (&*final(t),), handle)
        },
    ensures
        back is Some <==> was_ram,
        !was_ram ==> *final(s) == *old(s),
        was_ram ==> {
            &&& bytes_content(all) == old(s)@
            &&& between == 0
            &&& n == len
            &&& handle == Some(&file)
            &&& final(t)@ == old(s)@
        },
{
}

/// What is ready to be read of a sink is all that was written. It is in RAM if the
/// sink was or is empty, and otherwise all of the file.
pub proof fn law_sink_is_prepared<F, M>(
    s: BodySink<F>,
    image: BodyImage<F, M>,
    was_ram: bool,
    handle: Option<&F>,
    len: u64,
    in_ram: bool,
    n: u64,
    range: Option<MapRequest<'_, F>>,
)
    requires
        call_ensures(BodySink::<F>::is_ram, (&s,), was_ram),
        call_ensures(BodySink::<F>::file, (&s,), handle),
        call_ensures(BodySink::<F>::len, (&s,), len),
        call_ensures(BodySink::<F>::prepare::<M>, (s,), image),
        call_ensures(BodyImage::<F, M>::is_ram, (&image,), in_ram),
        call_ensures(BodyImage::<F, M>::len, (&image,), n),
        call_ensures(BodyImage::<F, M>::mem_map, (&image,), range),
    ensures
        n == len,
        image@ == s@,
        in_ram <==> was_ram || len == 0,
        in_ram ==> range is None,
        !in_ram ==> range is Some && *range->0.file == *handle->0 && range->0.offset == 0 && range->0.len == len,
{
    image.lemma_one_state();
}

/// The buffers that are to be written to a file are those that were given.
pub proof fn law_buffers_to_write(bufs: Buffers, back: WriteBack, shown: &Buffers, all: Bytes, other: Bytes)
    requires
        call_ensures(WriteBack::new, (bufs,), back),
        call_ensures(WriteBack::buffers, (&back,), shown),
        call_ensures(Buffers::gathered, (&bufs,), all),
        call_ensures(Buffers::gathered, (shown,), other),
    ensures
        bytes_content(other) == bytes_content(all),
{
}

/// An image of a file, or of a range of one, has its length, and that range is what
/// is mapped and given up. Without any bytes it is an empty image in RAM.
pub proof fn law_images_of_files<F, M>(
    file: F,
    length: u64,
    rslice: ReadSlice<F>,
    whole: BodyImage<F, M>,
    part: BodyImage<F, M>,
    whole_len: u64,
    part_len: u64,
    whole_ram: bool,
    part_ram: bool,
    whole_range: Option<MapRequest<'_, F>>,
    part_range: Option<MapRequest<'_, F>>,
    whole_given: ExplodedImage<F, M>,
    part_given: ExplodedImage<F, M>,
)
    requires
        rslice.start <= rslice.end,
        call_ensures(BodyImage::<F, M>::from_file, (file, length), whole),
        call_ensures(BodyImage::<F, M>::from_read_slice, (rslice,), part),
        call_ensures(BodyImage::<F, M>::len, (&whole,), whole_len),
        call_ensures(BodyImage::<F, M>::len, (&part,), part_len),
        call_ensures(BodyImage::<F, M>::is_ram, (&whole,), whole_ram),
        call_ensures(BodyImage::<F, M>::is_ram, (&part,), part_ram),
        call_ensures(BodyImage::<F, M>::mem_map, (&whole,), whole_range),
        call_ensures(BodyImage::<F, M>::mem_map, (&part,), part_range),
        call_ensures(BodyImage::<F, M>::explode, (whole,), whole_given),
        call_ensures(BodyImage::<F, M>::explode, (part,), part_given),
    ensures
        whole_len == length,
        part_len == rslice.end - rslice.start,
        whole_ram <==> length == 0,
        part_ram <==> rslice.start == rslice.end,
        whole_range is Some <==> length > 0,
        length > 0 ==> *whole_range->0.file == file && whole_range->0.offset == 0 && whole_range->0.len == length,
        length > 0 ==> (whole_given matches ExplodedImage::FsRead(rs) && rs.start == 0 && rs.pos == 0
            && rs.end == length
            && rs.file == file),
        part_range is Some <==> rslice.start < rslice.end,
        rslice.start < rslice.end ==> *part_range->0.file == rslice.file && part_range->0.offset == rslice.start
            && part_range->0.len == rslice.end - rslice.start,
        rslice.start < rslice.end ==> part_given == ExplodedImage::<F, M>::FsRead(rslice),
{
    whole.lemma_one_state();
    part.lemma_one_state();
}

/// An image of bytes in RAM is these bytes, and those of buffers is all of them.
/// There is no range of a file to map.
pub proof fn law_images_in_ram<F, M>(
    bytes: Bytes,
    bufs: Buffers,
    all: Bytes,
    none: BodyImage<F, M>,
    fresh: BodyImage<F, M>,
    one: BodyImage<F, M>,
    many: BodyImage<F, M>,
    x: BodyImage<F, M>,
    in_ram: bool,
    in_map: bool,
    empty: bool,
    n: u64,
    range: Option<MapRequest<'_, F>>,
    out: &mut Vec<u8>,
    written: Option<u64>,
)
    requires
        call_ensures(BodyImage::<F, M>::empty, (), none),
        call_ensures(<BodyImage<F, M> as Default>::default, (), fresh),
        call_ensures(BodyImage::<F, M>::from_slice, (bytes,), one),
        call_ensures(BodyImage::<F, M>::from_buffers, (bufs,), many),
        call_ensures(Buffers::gathered, (&bufs,), all),
        x == none || x == fresh || x == one || x == many,
        x@.len() <= u64::MAX,
        call_ensures(BodyImage::<F, M>::is_ram, (&x,), in_ram),
        call_ensures(BodyImage::<F, M>::is_mem_map, (&x,), in_map),
        call_ensures(BodyImage::<F, M>::is_empty, (&x,), empty),
        call_ensures(BodyImage::<F, M>::len, (&x,), n),
        call_ensures(BodyImage::<F, M>::mem_map, (&x,), range),
        call_ensures(BodyImage::<F, M>::write_to, (&x, out), written),
    ensures
        in_ram && !in_map && range is None,
        written == Some(n),
        empty <==> n == 0,
        x == none || x == fresh ==> n == 0 && final(out)@ == old(out)@,
        x == one ==> n == bytes_content(bytes).len() && final(out)@ == old(out)@ + bytes_content(bytes),
        x == many ==> n == bytes_content(all).len() && final(out)@ == old(out)@ + bytes_content(all),
{
    x.lemma_one_state();
}

/// A file that was mapped is read from the map, and no longer mapped. An image in
/// RAM, or in a map, stays what it is. The length does not change.
pub proof fn law_mapped<F, M>(
    x: &mut BodyImage<F, M>,
    map: M,
    range: Option<MapRequest<'_, F>>,
    n: u64,
    m: u64,
    in_map: bool,
    in_ram: bool,
    range_after: Option<MapRequest<'_, F>>,
    given: ExplodedImage<F, M>,
)
    requires
        call_ensures(BodyImage::<F, M>::mem_map, (&*old(x),), range),
        call_ensures(BodyImage::<F, M>::len, (&*old(x),), n),
        call_ensures(BodyImage::<F, M>::mapped, (x, map), ()),
        call_ensures(BodyImage::<F, M>::len, (&*final(x),), m),
        call_ensures(BodyImage::<F, M>::is_mem_map, (&*final(x),), in_map),
        call_ensures(BodyImage::<F, M>::is_ram, (&*final(x),), in_ram),
        call_ensures(BodyImage::<F, M>::mem_map, (&*final(x),), range_after),
        call_ensures(BodyImage::<F, M>::explode, (*final(x),), given),
    ensures
        m == n,
        final(x)@ == old(x)@,
        range is Some ==> in_map && !in_ram && given == ExplodedImage::<F, M>::MemMap(map),
        range is None ==> *final(x) == *old(x),
        range_after is None,
{
    old(x).lemma_one_state();
    final(x).lemma_one_state();
}

/// Gathering an image leaves its bytes as they are, in no more than one buffer if
/// it is in RAM.
pub proof fn law_gathered<F, M>(
    x: &mut BodyImage<F, M>,
    a: &mut Vec<u8>,
    b: &mut Vec<u8>,
    n: Option<u64>,
    m: Option<u64>,
    given: ExplodedImage<F, M>,
)
    requires
        old(a)@ == old(b)@,
        call_ensures(BodyImage::<F, M>::write_to, (&*old(x), a), n),
        call_ensures(BodyImage::<F, M>::gather, (x,), ()),
        call_ensures(BodyImage::<F, M>::write_to, (&*final(x), b), m),
        call_ensures(BodyImage::<F, M>::explode, (*final(x),), given),
    ensures
        m == n,
        final(b)@ == final(a)@,
        n is None ==> *final(x) == *old(x),
        n is Some ==> (given matches ExplodedImage::Ram(v) && v@.len() <= 1),
{
    final(x).lemma_one_state();
}

/// An image in RAM is written out whole, and one that is not is not written at all.
/// Its buffers are what it is made of, and it is nothing else.
pub proof fn law_image_in_ram_is_taken_apart<F, M>(
    x: BodyImage<F, M>,
    in_ram: bool,
    out: &mut Vec<u8>,
    n: Option<u64>,
    bufs: Result<Buffers, BodyImage<F, M>>,
    all: Bytes,
    given: ExplodedImage<F, M>,
)
    requires
        x@.len() <= u64::MAX,
        call_ensures(BodyImage::<F, M>::is_ram, (&x,), in_ram),
        call_ensures(BodyImage::<F, M>::write_to, (&x, out), n),
        call_ensures(BodyImage::<F, M>::into_buffers, (x,), bufs),
        bufs is Ok ==> call_ensures(Buffers::gathered, (&bufs->Ok_0,), all),
        call_ensures(BodyImage::<F, M>::explode, (x,), given),
    ensures
        in_ram <==> n is Some,
        in_ram <==> bufs is Ok,
        in_ram <==> given is Ram,
        in_ram ==> final(out)@ == old(out)@ + bytes_content(all) && n->0 == bytes_content(all).len(),
        in_ram ==> joined(given->Ram_0@) == bytes_content(all),
        !in_ram ==> final(out)@ == old(out)@ && bufs->Err_0 == x,
{
    x.lemma_one_state();
}

/// A reader of an image in RAM gives all of its bytes, and then nothing. Of a file
/// it is the range of the image, from its start, and of a map all of it.
pub proof fn law_image_is_read<F: Clone, M>(
    x: BodyImage<F, M>,
    reader: &mut BodyReader<'_, F, M>,
    again: &mut BodyReader<'_, F, M>,
    in_ram: bool,
    in_map: bool,
    range: Option<MapRequest<'_, F>>,
    a: &mut Vec<u8>,
    b: &mut Vec<u8>,
    c: &mut Vec<u8>,
    n: Option<u64>,
    got: Option<usize>,
    more: Option<usize>,
)
    requires
        x@.len() <= usize::MAX,
        call_ensures(BodyImage::<F, M>::is_ram, (&x,), in_ram),
        call_ensures(BodyImage::<F, M>::is_mem_map, (&x,), in_map),
        call_ensures(BodyImage::<F, M>::mem_map, (&x,), range),
        call_ensures(BodyImage::<F, M>::reader, (&x,), *old(reader)),
        old(a)@ == old(b)@,
        call_ensures(BodyImage::<F, M>::write_to, (&x, a), n),
        call_ensures(BodyReader::<'_, F, M>::read_to_end, (reader, b), got),
        *old(again) == *final(reader),
        *old(c) == *final(b),
        call_ensures(BodyReader::<'_, F, M>::read_to_end, (again, c), more),
    ensures
        in_ram ==> final(b)@ == final(a)@ && got is Some && got->0 == n->0,
        in_ram ==> more == Some(0usize) && final(c)@ == final(b)@,
        !in_ram ==> got is None && final(b)@ == old(b)@,
        range matches Some(q) ==> (*old(reader) matches BodyReader::FileSlice(rs) && rs.start == q.offset && rs.pos
            == q.offset && rs.end == q.offset + q.len && cloned::<F>(*q.file, rs.file)),
        in_map ==> (*old(reader) matches BodyReader::Mapped(m) && *m == x.the_map()),
{
    x.lemma_one_state();
    if in_ram {
        assert(final(b)@ + Seq::<u8>::empty() =~= final(b)@);
    }
}

/// A copy of an image has the same bytes in the same form, of the same range of a
/// file or of a copy of the map.
pub proof fn law_image_copy<F: Clone, M: Clone>(
    x: BodyImage<F, M>,
    y: BodyImage<F, M>,
    n: u64,
    m: u64,
    range: Option<MapRequest<'_, F>>,
    other: Option<MapRequest<'_, F>>,
    a: &mut Vec<u8>,
    b: &mut Vec<u8>,
    written: Option<u64>,
    rewritten: Option<u64>,
)
    requires
        call_ensures(<BodyImage<F, M> as Clone>::clone, (&x,), y),
        call_ensures(BodyImage::<F, M>::len, (&x,), n),
        call_ensures(BodyImage::<F, M>::len, (&y,), m),
        call_ensures(BodyImage::<F, M>::mem_map, (&x,), range),
        call_ensures(BodyImage::<F, M>::mem_map, (&y,), other),
        old(a)@ == old(b)@,
        call_ensures(BodyImage::<F, M>::write_to, (&x, a), written),
        call_ensures(BodyImage::<F, M>::write_to, (&y, b), rewritten),
    ensures
        m == n,
        rewritten == written,
        final(b)@ == final(a)@,
        range is Some <==> other is Some,
        range is Some ==> other->0.offset == range->0.offset && other->0.len == range->0.len && cloned::<F>(
            *range->0.file,
            *other->0.file,
        ),
        x.in_map() ==> y.in_map() && cloned::<M>(x.the_map(), y.the_map()),
{
    x.lemma_one_state();
    y.lemma_one_state();
}

/// How long a body is that was found in some input, and what is made of it by
/// where it is to be kept.
pub proof fn law_body_plans<F, M>(
    plan: BodyPlan,
    input: F,
    n: u64,
    empty: bool,
    in_ram: bool,
    r: Result<BodyImage<F, M>, WriteBack>,
    bufs: &Buffers,
    len: u64,
    range: Option<MapRequest<'_, F>>,
)
    requires
        plan matches BodyPlan::Slice { start, end } ==> start <= end,
        call_ensures(BodyPlan::len, (&plan,), n),
        call_ensures(BodyPlan::is_empty, (&plan,), empty),
        call_ensures(BodyPlan::is_ram, (&plan,), in_ram),
        call_ensures(BodyPlan::into_image::<F, M>, (plan, input), r),
        r is Err ==> call_ensures(WriteBack::buffers, (&r->Err_0,), bufs),
        r is Ok ==> call_ensures(BodyImage::<F, M>::len, (&r->Ok_0,), len),
        r is Ok ==> call_ensures(BodyImage::<F, M>::mem_map, (&r->Ok_0,), range),
    ensures
        empty <==> n == 0,
        in_ram <==> plan is Ram,
        r is Err <==> plan is Fs,
        r is Ok ==> len == n,
        plan matches BodyPlan::Ram(b) ==> n == b@.len() && range is None && r->Ok_0@ == b@,
        plan matches BodyPlan::Fs(b) ==> n == b@.len() && bufs@ == b@,
        plan matches BodyPlan::Slice { start, end } ==> {
            &&& n == end - start
            &&& range is Some <==> start < end
            &&& range is Some ==> *range->0.file == input && range->0.offset == start && range->0.len == n
        },
{
    if r is Ok {
        r->Ok_0.lemma_one_state();
    }
}

/// Bytes in one run are read in order, as many as are asked for or are left.
pub proof fn law_slice_is_read(
    data: &[u8],
    s: &mut SliceReader<'_>,
    t: &mut SliceReader<'_>,
    out: &mut Vec<u8>,
    more: &mut Vec<u8>,
    max: usize,
    n: usize,
    m: usize,
    left: usize,
    left_after: usize,
    whole: &[u8],
)
    requires
        call_ensures(SliceReader::new, (data,), *old(s)),
        call_ensures(SliceReader::remaining, (&*old(s),), left),
        call_ensures(SliceReader::read, (s, out, max), n),
        call_ensures(SliceReader::remaining, (&*final(s),), left_after),
        *old(t) == *final(s),
        *old(more) == *final(out),
        call_ensures(SliceReader::read, (t, more, left_after), m),
        call_ensures(SliceReader::into_inner, (*final(t),), whole),
    ensures
        left == data@.len(),
        n == max || (n < max && n == data@.len()),
        n <= data@.len(),
        final(out)@ == old(out)@ + data@.take(n as int),
        left_after == data@.len() - n,
        m == left_after,
        final(more)@ == old(out)@ + data@,
        whole@ == data@,
{
    assert(data@.skip(n as int).take(m as int) =~= data@.skip(n as int));
    assert(old(out)@ + data@.take(n as int) + data@.skip(n as int) =~= old(out)@ + data@);
}

/// A reader of nothing has nothing to read.
pub proof fn law_nothing_to_read(s: SliceReader<'_>, left: usize, whole: &[u8])
    requires
        call_ensures(SliceReader::empty, (), s),
        call_ensures(SliceReader::remaining, (&s,), left),
        call_ensures(SliceReader::into_inner, (s,), whole),
    ensures
        left == 0,
        whole@ == Seq::<u8>::empty(),
{
}

/// Buffers are read as one run: what is read first and what is left after it are
/// together all of the bytes, in order. Something is read as long as there is
/// anything, and never more than asked for.
pub proof fn law_buffers_are_read(
    bufs: &Buffers,
    all: Bytes,
    g: &mut GatheringReader<'_>,
    h: &mut GatheringReader<'_>,
    out: &mut Vec<u8>,
    more: &mut Vec<u8>,
    max: usize,
    n: usize,
    m: usize,
)
    requires
        call_ensures(Buffers::gathered, (bufs,), all),
        call_ensures(GatheringReader::new, (bufs,), *old(g)),
        call_ensures(GatheringReader::read, (g, out, max), n),
        *old(h) == *final(g),
        *old(more) == *final(out),
        call_ensures(GatheringReader::read_to_end, (h, more), m),
    ensures
        n <= max,
        n <= bytes_content(all).len(),
        max > 0 && bytes_content(all).len() > 0 ==> n > 0,
        final(out)@ == old(out)@ + bytes_content(all).take(n as int),
        final(more)@ == old(out)@ + bytes_content(all),
        n + m == bytes_content(all).len(),
{
    let s = bytes_content(all);
    assert(old(out)@ + s.take(n as int) + s.skip(n as int) =~= old(out)@ + s);
}

/// Moving on to the next buffer loses nothing, and is possible exactly if
/// something is left.
pub proof fn law_next_of_buffers(
    g: &mut GatheringReader<'_>,
    h: &mut GatheringReader<'_>,
    k: &mut GatheringReader<'_>,
    a: &mut Vec<u8>,
    b: &mut Vec<u8>,
    n: usize,
    m: usize,
    moved: bool,
)
    requires
        *old(h) == *old(g),
        old(a)@ == old(b)@,
        call_ensures(GatheringReader::read_to_end, (h, a), n),
        call_ensures(GatheringReader::pop, (g,), moved),
        *old(k) == *final(g),
        call_ensures(GatheringReader::read_to_end, (k, b), m),
    ensures
        moved <==> n > 0,
        m == n,
        final(b)@ == final(a)@,
{
}

/// An image of one buffer is that buffer alone, or nothing if it is empty. An image of
/// buffers is as many of them, in their order.
pub proof fn law_image_parts<F, M>(
    bytes: Bytes,
    bufs: Buffers,
    one: BodyImage<F, M>,
    many: BodyImage<F, M>,
    a: ExplodedImage<F, M>,
    b: ExplodedImage<F, M>,
    parts: Vec<Bytes>,
)
    requires
        call_ensures(BodyImage::<F, M>::from_slice, (bytes,), one),
        call_ensures(BodyImage::<F, M>::from_buffers, (bufs,), many),
        call_ensures(BodyImage::<F, M>::explode, (one,), a),
        call_ensures(BodyImage::<F, M>::explode, (many,), b),
        call_ensures(Buffers::into_parts, (bufs,), parts),
    ensures
        a matches ExplodedImage::Ram(v) && v@.len() <= 1 && joined(v@) == bytes_content(bytes),
        b matches ExplodedImage::Ram(v) && v@ == parts@,
{
    one.lemma_one_state();
    many.lemma_one_state();
}

} // verus!
