//! Streams of the bytes of a [`BodyImage`].
use bytes::Bytes;
use vstd::prelude::*;

use crate::blocking::{after_request, grants, Blocking, BlockingArbiter, LenientArbiter, StatefulArbiter};
use crate::body::{BodyImage, ExplodedImage};
use crate::buf::{bytes_content, joined, lemma_joined_first};
use crate::futio::buf::{OutputBuf, Region};
use crate::read_from::concatenated;
use crate::read_pos::{clipped, FileRange, ReadSlice};
use crate::tune::{BlockingPolicy, FutioTunables};

verus! {

/// Where the items of a stream come from.
pub enum Source<F, M> {
    /// From these buffers, one after the other.
    Ram(Seq<Bytes>),
    /// From a range of a file.
    File(ReadSlice<F>),
    /// From a memory map, which is the only item.
    MemMap(Option<M>),
}

/// What is known of a stream.
pub struct StreamView<F, M> {
    /// Where the next items come from.
    pub source: Source<F, M>,
    /// All of the body.
    pub body: Seq<u8>,
    /// The bytes of the items so far.
    pub emitted: Seq<u8>,
    /// The maximum number of bytes to read from a file at once.
    pub buffer_size: usize,
}

impl<F, M> StreamView<F, M> {
    /// The number of bytes that are still to come.
    pub open spec fn avail(&self) -> int {
        self.body.len() - self.emitted.len()
    }

    /// The number of bytes to read at once: no more than there are to come.
    pub open spec fn read_len(&self) -> usize {
        if self.buffer_size <= self.avail() {
            self.buffer_size
        } else {
            self.avail() as usize
        }
    }

    /// The range of the file to read next.
    pub open spec fn next_range(&self) -> FileRange {
        clipped(self.source->File_0.pos, self.read_len(), self.source->File_0.end)
    }

    /// Whether the items so far are the bytes of a file from some position up
    /// to the position of the range.
    pub open spec fn follows(&self, file: Seq<u8>, start: int) -> bool {
        &&& self.source is File
        &&& 0 <= start <= self.source->File_0.pos <= file.len()
        &&& self.emitted == file.subrange(start, self.source->File_0.pos as int)
    }
}

enum AsyncBodyState<F, M> {
    /// The buffers to come, the next one last.
    Ram(Vec<Bytes>),
    File(ReadSlice<F>),
    MemMap(Option<M>),
}

/// A stream of the bytes of a [`BodyImage`].
///
/// Bodies in RAM are streamed without a copy and without blocking. Other states
/// need to block, and ask an arbiter for it. Files are read in pieces of up to
/// [`Tunables::buffer_size_fs`](crate::tune::Tunables::buffer_size_fs) bytes.
pub struct AsyncBodyImage<F, M: Region, S: Copy, BA: BlockingArbiter> {
    state: AsyncBodyState<F, M>,
    len: u64,
    consumed: u64,
    tune: FutioTunables<S>,
    arbiter: BA,
    body: Ghost<Seq<u8>>,
    emitted: Ghost<Seq<u8>>,
}

/// A stream that may block whenever it needs to.
pub type OmniBodyImage<F, M, S> = AsyncBodyImage<F, M, S, LenientArbiter>;

/// What a poll of a stream asks of the caller.
pub enum StreamPoll<B, M> {
    /// There are no more items.
    End,
    /// Blocking is needed and was not granted.
    Pending,
    /// The next item.
    Item(B),
    /// Read this range of the file, and report by [`AsyncBodyImage::read_done`].
    Read(FileRange),
    /// Advise that the map is about to be read in sequence, and hand it back by
    /// [`AsyncBodyImage::mapped`] for the item. If the advice fails there is no
    /// item.
    Advise(M),
}

impl<F, M: Region, S: Copy, BA: BlockingArbiter> View for AsyncBodyImage<F, M, S, BA> {
    type V = StreamView<F, M>;

    closed spec fn view(&self) -> StreamView<F, M> {
        StreamView {
            source: match self.state {
                AsyncBodyState::Ram(v) => Source::Ram(v@.reverse()),
                AsyncBodyState::File(rs) => Source::File(rs),
                AsyncBodyState::MemMap(m) => Source::MemMap(m),
            },
            body: self.body@,
            emitted: self.emitted@,
            buffer_size: self.tune.image.buffer_size_fs,
        }
    }
}

/// The outcome of a poll of a stream.
pub open spec fn is_polled<B: OutputBuf<M>, F, M: Region, S: Copy, BA: BlockingArbiter>(
    before: AsyncBodyImage<F, M, S, BA>,
    after: AsyncBodyImage<F, M, S, BA>,
    r: StreamPoll<B, M>,
) -> bool {
    let v = before@;
    let w = after@;
    let asked = after.arbiter().blocking() == before.arbiter().requested();
    if v.avail() == 0 {
        r is End && w == v && after.arbiter() == before.arbiter()
    } else {
        match v.source {
            Source::Ram(bufs) => {
                &&& bufs.len() > 0
                &&& r is Item
                &&& r->Item_0.bytes() == bytes_content(bufs[0])
                &&& w == (StreamView {
                    source: Source::Ram(bufs.skip(1)),
                    emitted: v.emitted + bytes_content(bufs[0]),
                    ..v
                })
                &&& after.arbiter() == before.arbiter()
            },
            Source::File(_) => {
                &&& w == v
                &&& asked
                &&& r == (if before.arbiter().permits() {
                    StreamPoll::<B, M>::Read(v.next_range())
                } else {
                    StreamPoll::Pending
                })
            },
            Source::MemMap(m) => {
                &&& asked
                &&& if !before.arbiter().permits() {
                    r is Pending && w == v
                } else {
                    match m {
                        Some(m) => r == StreamPoll::<B, M>::Advise(m) && w == (StreamView {
                            source: Source::MemMap(None),
                            ..v
                        }),
                        None => r is End && w == v,
                    }
                }
            },
        }
    }
}

impl<F, M: Region, S: Copy> AsyncBodyImage<F, M, S, LenientArbiter> {
    /// A stream of a body that may block whenever it needs to.
    pub fn new(body: BodyImage<F, M>, tune: FutioTunables<S>) -> (r: Self)
        requires
            body.in_map() ==> body.the_map().bytes().len() == body@.len(),
        ensures
            r.wf(),
            r@.body == body@,
            r@.emitted == Seq::<u8>::empty(),
            r@.buffer_size == tune.image.buffer_size_fs,
            r.policy() == tune.blocking_policy,
            is_source(body, r@.source),
    {
        AsyncBodyImage::with_arbiter(body, tune, LenientArbiter)
    }
}

/// Where the items of a stream of a body come from.
pub open spec fn is_source<F, M>(body: BodyImage<F, M>, source: Source<F, M>) -> bool {
    &&& body.in_ram() ==> source == Source::<F, M>::Ram(body.ram().parts())
    &&& body.in_file() ==> source == Source::<F, M>::File(
        ReadSlice { start: 0, pos: 0, end: body@.len() as u64, file: body.the_file() },
    )
    &&& body.in_slice() ==> source == Source::<F, M>::File(body.the_slice())
    &&& body.in_map() ==> source == Source::<F, M>::MemMap(Some(body.the_map()))
}

impl<F, M: Region, S: Copy, BA: BlockingArbiter> AsyncBodyImage<F, M, S, BA> {
    /// The items so far are counted, and in RAM they are, with those to come,
    /// all of the body. No buffer is empty.
    pub closed spec fn wf(&self) -> bool {
        &&& self.len == self.body@.len()
        &&& self.consumed == self.emitted@.len()
        &&& self.consumed <= self.len
        &&& match self.state {
            AsyncBodyState::Ram(v) => {
                &&& self.emitted@ + joined(v@.reverse()) == self.body@
                &&& forall|i: int| 0 <= i < v@.len() ==> bytes_content(#[trigger] v@[i]).len() > 0
            },
            AsyncBodyState::File(rs) => rs.wf(),
            AsyncBodyState::MemMap(Some(m)) => m.bytes().len() + self.consumed == self.len,
            AsyncBodyState::MemMap(None) => true,
        }
    }

    /// The arbiter.
    pub closed spec fn arbiter(&self) -> BA {
        self.arbiter
    }

    /// The policy for blocking operations.
    pub closed spec fn policy(&self) -> BlockingPolicy<S> {
        self.tune.blocking_policy
    }

    /// A stream of a body, with an arbiter of blocking operations.
    pub fn with_arbiter(body: BodyImage<F, M>, tune: FutioTunables<S>, arbiter: BA) -> (r: Self)
        requires
            body.in_map() ==> body.the_map().bytes().len() == body@.len(),
        ensures
            r.wf(),
            r@.body == body@,
            r@.emitted == Seq::<u8>::empty(),
            r@.buffer_size == tune.image.buffer_size_fs,
            r.policy() == tune.blocking_policy,
            r.arbiter() == arbiter,
            is_source(body, r@.source),
    {
        let len: u64 = body.len();
        let ghost all = body@;
        proof {
            body.lemma_one_state();
        }
        let state = match body.explode() {
            ExplodedImage::Ram(v) => {
                let ghost parts = v@;
                let rest = reversed(v);
                proof {
                    assert(rest@.reverse() =~= parts);
                    assert(Seq::<u8>::empty() + all =~= all);
                }
                AsyncBodyState::Ram(rest)
            },
            ExplodedImage::FsRead(rs) => AsyncBodyState::File(rs),
            ExplodedImage::MemMap(m) => AsyncBodyState::MemMap(Some(m)),
        };
        AsyncBodyImage {
            state,
            len,
            consumed: 0,
            tune,
            arbiter,
            body: Ghost(all),
            emitted: Ghost(Seq::empty()),
        }
    }

    /// Poll for the next item.
    pub fn poll_impl<B: OutputBuf<M>>(&mut self) -> (r: StreamPoll<B, M>)
        requires
            old(self).wf(),
        ensures
            final(self).wf(),
            is_polled(*old(self), *final(self), r),
            final(self).policy() == old(self).policy(),
            r is End && old(self)@.source is Ram ==> final(self)@.emitted == final(self)@.body,
            r is Advise ==> r->Advise_0.bytes().len() == final(self)@.avail(),
    {
        let avail: u64 = self.len - self.consumed;
        if avail == 0 {
            proof {
                if self@.source is Ram {
                    assert(joined(self@.source->Ram_0) =~= Seq::<u8>::empty());
                    assert(self.emitted@ =~= self.body@);
                }
            }
            return StreamPoll::End;
        }
        if !self.is_ram() && !self.arbiter.can_block() {
            return StreamPoll::Pending;
        }
        match &mut self.state {
            AsyncBodyState::Ram(v) => {
                let ghost bufs = v@.reverse();
                match v.pop() {
                    Some(b) => {
                        proof {
                            lemma_joined_first(bufs);
                            assert(v@.reverse() =~= bufs.skip(1));
                            assert(bufs[0] == b);
                            assert(self.emitted@ + (bytes_content(b) + joined(bufs.skip(1))) =~= (
                            self.emitted@ + bytes_content(b)) + joined(bufs.skip(1)));
                            assert(self.body@.len() == self.emitted@.len() + bytes_content(b).len()
                                + joined(bufs.skip(1)).len());
                        }
                        self.consumed = self.consumed + b.len() as u64;
                        self.emitted = Ghost(self.emitted@ + bytes_content(b));
                        StreamPoll::Item(B::from_buf(b))
                    },
                    None => {
                        assert(joined(bufs) =~= Seq::<u8>::empty());
                        StreamPoll::End
                    },
                }
            },
            AsyncBodyState::File(_) => StreamPoll::Read(self.next_range()),
            AsyncBodyState::MemMap(m) => match m.take() {
                Some(m) => StreamPoll::Advise(m),
                None => StreamPoll::End,
            },
        }
    }

    /// The range of the file to read next.
    fn next_range(&self) -> (r: FileRange)
        requires
            self.wf(),
            self@.source is File,
        ensures
            r == self@.next_range(),
    {
        let avail: u64 = self.len - self.consumed;
        let size: usize = self.tune.image.buffer_size_fs;
        let rlen: usize = if size as u64 <= avail { size } else { avail as usize };
        match &self.state {
            AsyncBodyState::File(rs) => rs.next_read(rlen),
            _ => FileRange { offset: 0, len: 0 },
        }
    }

    /// Report the bytes that were read of the range that a poll asked for, or
    /// `None` if the read was interrupted, and is to be tried again. With no
    /// bytes the file has ended. After any other failure nothing is to be
    /// reported.
    pub fn read_done<B: OutputBuf<M>>(&mut self, data: Option<Bytes>) -> (r: StreamPoll<B, M>)
        requires
            old(self).wf(),
            old(self)@.source is File,
            data is Some ==> bytes_content(data->0).len() <= old(self)@.next_range().len,
        ensures
            final(self).wf(),
            final(self).arbiter() == old(self).arbiter(),
            final(self).policy() == old(self).policy(),
            match data {
                None => r == StreamPoll::<B, M>::Read(old(self)@.next_range()) && final(self)@ == old(self)@,
                Some(b) => if bytes_content(b).len() == 0 {
                    r is End && final(self)@ == old(self)@
                } else {
                    &&& r is Item
                    &&& r->Item_0.bytes() == bytes_content(b)
                    &&& final(self)@ == read_from_file(old(self)@, bytes_content(b))
                },
            },
    {
        match data {
            None => StreamPoll::Read(self.next_range()),
            Some(b) => {
                let n: usize = b.len();
                if n == 0 {
                    return StreamPoll::End;
                }
                if let AsyncBodyState::File(rs) = &mut self.state {
                    rs.advance(n);
                }
                self.consumed = self.consumed + n as u64;
                self.emitted = Ghost(self.emitted@ + bytes_content(b));
                StreamPoll::Item(B::from_buf(b))
            },
        }
    }

    /// The item of a memory map that a poll gave.
    pub fn mapped<B: OutputBuf<M>>(&mut self, mmap: M) -> (r: B)
        requires
            old(self).wf(),
            old(self)@.source == Source::<F, M>::MemMap(None),
            mmap.bytes().len() <= old(self)@.avail(),
        ensures
            final(self).wf(),
            final(self).arbiter() == old(self).arbiter(),
            final(self).policy() == old(self).policy(),
            r.bytes() == mmap.bytes(),
            final(self)@ == (StreamView { emitted: old(self)@.emitted + mmap.bytes(), ..old(self)@ }),
    {
        let n: usize = mmap.region().len();
        self.consumed = self.consumed + n as u64;
        self.emitted = Ghost(self.emitted@ + mmap.bytes());
        B::from_mmap(mmap)
    }

    /// Whether the items come from buffers in RAM.
    pub fn is_ram(&self) -> (b: bool)
        ensures
            b == self@.source is Ram,
    {
        match self.state {
            AsyncBodyState::Ram(_) => true,
            _ => false,
        }
    }

    /// The semaphore that limits concurrent blocking operations, if the policy
    /// has one.
    pub fn blocking_semaphore(&self) -> (r: Option<S>)
        ensures
            r == (match self.policy() {
                BlockingPolicy::Permit(s) => Some(s),
                _ => None,
            }),
    {
        self.tune.blocking_semaphore()
    }

    /// The exact number of bytes of the body.
    pub fn size_hint(&self) -> (n: u64)
        requires
            self.wf(),
        ensures
            n == self@.body.len(),
    {
        self.len
    }

    /// Whether all of the bytes were given.
    pub fn is_end_stream(&self) -> (b: bool)
        requires
            self.wf(),
        ensures
            b == (self@.avail() == 0),
            !b ==> self@.avail() > 0,
    {
        self.consumed >= self.len
    }
}

/// How far a permit to block, or an operation that was dispatched, has got.
#[derive(Clone, Copy, Debug, PartialEq, Eq, Structural)]
pub enum WaitPoll {
    /// It is not there yet.
    Pending,
    /// The permit was granted, or the operation was completed.
    Ready,
    /// It was canceled.
    Canceled,
}

/// What a poll of a stream with permits asks of the caller.
pub enum PermitStep<B, M, S> {
    /// What a poll of the stream itself asks.
    Poll(StreamPoll<B, M>),
    /// Obtain a permit of the semaphore, poll it, and report by
    /// [`PermitBodyImage::permit_polled`].
    Ask(S),
    /// The permit was canceled, which is a failure.
    Canceled,
}

/// A stream that obtains a permit before each operation that blocks.
pub struct PermitBodyImage<F, M: Region, S: Copy> {
    image: AsyncBodyImage<F, M, S, StatefulArbiter>,
    waiting: bool,
}

impl<F, M: Region, S: Copy> PermitBodyImage<F, M, S> {
    /// The arbiter is pending exactly while a permit is waited for, and that is
    /// only where there is something to block for.
    pub closed spec fn wf(&self) -> bool {
        &&& self.image.wf()
        &&& self.image.arbiter().state == (if self.waiting {
            Blocking::Pending
        } else {
            Blocking::Void
        })
        &&& self.waiting ==> self.image@.avail() > 0 && !(self.image@.source is Ram)
    }

    /// The stream itself.
    pub closed spec fn stream(&self) -> AsyncBodyImage<F, M, S, StatefulArbiter> {
        self.image
    }

    /// Whether a permit is waited for.
    pub closed spec fn waits(&self) -> bool {
        self.waiting
    }

    /// A stream of a body.
    pub fn new(body: BodyImage<F, M>, tune: FutioTunables<S>) -> (r: Self)
        requires
            body.in_map() ==> body.the_map().bytes().len() == body@.len(),
        ensures
            r.wf(),
            !r.waits(),
            r.stream()@.body == body@,
            r.stream()@.emitted == Seq::<u8>::empty(),
            r.stream()@.buffer_size == tune.image.buffer_size_fs,
            r.stream().policy() == tune.blocking_policy,
            is_source(body, r.stream()@.source),
    {
        let arbiter = StatefulArbiter { state: Blocking::Void };
        PermitBodyImage { image: AsyncBodyImage::with_arbiter(body, tune, arbiter), waiting: false }
    }

    /// Whether a permit is waited for.
    pub fn is_waiting(&self) -> (b: bool)
        ensures
            b == self.waits(),
    {
        self.waiting
    }

    /// Poll for the next item, while no permit is waited for. Where blocking is
    /// needed a permit is asked for, of the semaphore that the policy has to
    /// have.
    pub fn poll_next<B: OutputBuf<M>>(&mut self) -> (r: PermitStep<B, M, S>)
        requires
            old(self).wf(),
            !old(self).waits(),
            old(self).stream()@.source is Ram || old(self).stream()@.avail() == 0
                || old(self).stream().policy() is Permit,
        ensures
            final(self).wf(),
            final(self).stream().policy() == old(self).stream().policy(),
            ({
                let v = old(self).stream()@;
                if v.avail() == 0 || v.source is Ram {
                    &&& r is Poll
                    &&& is_polled(old(self).stream(), final(self).stream(), r->Poll_0)
                    &&& r->Poll_0 is End && v.source is Ram ==> final(self).stream()@.emitted == v.body
                    &&& !final(self).waits()
                } else {
                    &&& r == PermitStep::<B, M, S>::Ask(old(self).stream().policy()->Permit_0)
                    &&& final(self).stream()@ == v
                    &&& final(self).waits()
                }
            }),
    {
        let r = self.image.poll_impl();
        match r {
            StreamPoll::Pending => {
                self.waiting = true;
                match self.image.tune.blocking_semaphore() {
                    Some(s) => PermitStep::Ask(s),
                    None => PermitStep::Canceled,
                }
            },
            r => PermitStep::Poll(r),
        }
    }

    /// Go on, while a permit is waited for, by how far it has got. Once it was
    /// granted the blocking operation is to be run, and it is the only one that
    /// the permit is good for.
    pub fn permit_polled<B: OutputBuf<M>>(&mut self, permit: WaitPoll) -> (r: PermitStep<B, M, S>)
        requires
            old(self).wf(),
            old(self).waits(),
        ensures
            final(self).wf(),
            final(self).stream().policy() == old(self).stream().policy(),
            match permit {
                WaitPoll::Pending => *final(self) == *old(self) && r == PermitStep::<B, M, S>::Poll(
                    StreamPoll::Pending,
                ),
                WaitPoll::Canceled => *final(self) == *old(self) && r is Canceled,
                WaitPoll::Ready => {
                    &&& r is Poll
                    &&& !final(self).waits()
                    &&& match old(self).stream()@.source {
                        Source::File(_) => r->Poll_0 == StreamPoll::<B, M>::Read(
                            old(self).stream()@.next_range(),
                        ) && final(self).stream()@ == old(self).stream()@,
                        Source::MemMap(Some(m)) => r->Poll_0 == StreamPoll::<B, M>::Advise(m) && final(self).stream()@ == (StreamView {
                            source: Source::MemMap(None),
                            ..old(self).stream()@
                        }) && m.bytes().len() == final(self).stream()@.avail(),
                        Source::MemMap(None) => r->Poll_0 is End && final(self).stream()@ == old(self).stream()@,
                        Source::Ram(_) => false,
                    }
                },
            },
    {
        match permit {
            WaitPoll::Pending => PermitStep::Poll(StreamPoll::Pending),
            WaitPoll::Canceled => PermitStep::Canceled,
            WaitPoll::Ready => {
                self.waiting = false;
                self.image.arbiter.set(Blocking::Once);
                PermitStep::Poll(self.image.poll_impl())
            },
        }
    }

    /// As [`AsyncBodyImage::read_done`].
    pub fn read_done<B: OutputBuf<M>>(&mut self, data: Option<Bytes>) -> (r: StreamPoll<B, M>)
        requires
            old(self).wf(),
            !old(self).waits(),
            old(self).stream()@.source is File,
            data is Some ==> bytes_content(data->0).len() <= old(self).stream()@.next_range().len,
        ensures
            final(self).wf(),
            !final(self).waits(),
            final(self).stream().policy() == old(self).stream().policy(),
            match data {
                None => r == StreamPoll::<B, M>::Read(old(self).stream()@.next_range()) && final(self).stream()@ == old(self).stream()@,
                Some(b) => if bytes_content(b).len() == 0 {
                    r is End && final(self).stream()@ == old(self).stream()@
                } else {
                    &&& r is Item
                    &&& r->Item_0.bytes() == bytes_content(b)
                    &&& final(self).stream()@ == read_from_file(old(self).stream()@, bytes_content(b))
                },
            },
    {
        self.image.read_done(data)
    }

    /// As [`AsyncBodyImage::mapped`].
    pub fn mapped<B: OutputBuf<M>>(&mut self, mmap: M) -> (r: B)
        requires
            old(self).wf(),
            !old(self).waits(),
            old(self).stream()@.source == Source::<F, M>::MemMap(None),
            mmap.bytes().len() <= old(self).stream()@.avail(),
        ensures
            final(self).wf(),
            !final(self).waits(),
            final(self).stream().policy() == old(self).stream().policy(),
            r.bytes() == mmap.bytes(),
            final(self).stream()@ == (StreamView {
                emitted: old(self).stream()@.emitted + mmap.bytes(),
                ..old(self).stream()@
            }),
    {
        self.image.mapped(mmap)
    }

    /// The exact number of bytes of the body.
    pub fn size_hint(&self) -> (n: u64)
        requires
            self.wf(),
        ensures
            n == self.stream()@.body.len(),
    {
        self.image.size_hint()
    }

    /// Whether all of the bytes were given.
    pub fn is_end_stream(&self) -> (b: bool)
        requires
            self.wf(),
        ensures
            b == (self.stream()@.avail() == 0),
    {
        self.image.is_end_stream()
    }
}

/// What a poll of a stream that dispatches asks of the caller.
pub enum DispatchStep<B, F, M: Region, S: Copy> {
    /// What a poll of the stream itself asks.
    Poll(StreamPoll<B, M>),
    /// Have the stream polled where blocking is acceptable: it is allowed to
    /// block once. Then hand it back by [`DispatchBodyImage::dispatch_polled`].
    Dispatch(AsyncBodyImage<F, M, S, StatefulArbiter>),
    /// The operation was canceled, which is a failure.
    Canceled,
}

/// How far an operation that was dispatched has got.
pub enum DispatchPoll<F, M: Region, S: Copy> {
    /// It is not completed yet.
    Pending,
    /// It was completed, and here is the stream.
    Ready(AsyncBodyImage<F, M, S, StatefulArbiter>),
    /// It was canceled.
    Canceled,
}

/// A stream that has each operation that blocks dispatched to a pool of
/// threads. There is at most one such operation at a time.
pub struct DispatchBodyImage<F, M: Region, S: Copy> {
    image: Option<AsyncBodyImage<F, M, S, StatefulArbiter>>,
    len: u64,
}

impl<F, M: Region, S: Copy> DispatchBodyImage<F, M, S> {
    /// A stream that is here has nothing to block for at the moment.
    pub closed spec fn wf(&self) -> bool {
        self.image matches Some(i) ==> {
            &&& i.wf()
            &&& i@.body.len() == self.len
            &&& i.arbiter().state is Void
        }
    }

    /// The stream itself, unless it is dispatched.
    pub closed spec fn stream(&self) -> Option<AsyncBodyImage<F, M, S, StatefulArbiter>> {
        self.image
    }

    /// The number of bytes of the body.
    pub closed spec fn size(&self) -> int {
        self.len as int
    }

    /// A stream of a body.
    pub fn new(body: BodyImage<F, M>, tune: FutioTunables<S>) -> (r: Self)
        requires
            body.in_map() ==> body.the_map().bytes().len() == body@.len(),
        ensures
            r.wf(),
            r.size() == body@.len(),
            r.stream() is Some,
            r.stream()->0@.body == body@,
            r.stream()->0@.emitted == Seq::<u8>::empty(),
            r.stream()->0@.buffer_size == tune.image.buffer_size_fs,
            is_source(body, r.stream()->0@.source),
    {
        let len: u64 = body.len();
        let arbiter = StatefulArbiter { state: Blocking::Void };
        DispatchBodyImage { image: Some(AsyncBodyImage::with_arbiter(body, tune, arbiter)), len }
    }

    /// Whether the stream is dispatched.
    pub fn is_dispatched(&self) -> (b: bool)
        ensures
            b == (self.stream() is None),
    {
        self.image.is_none()
    }

    /// Poll for the next item, while the stream is not dispatched. Where
    /// blocking is needed the stream is given away, to be polled elsewhere.
    pub fn poll_next<B: OutputBuf<M>>(&mut self) -> (r: DispatchStep<B, F, M, S>)
        requires
            old(self).wf(),
            old(self).stream() is Some,
        ensures
            final(self).wf(),
            final(self).size() == old(self).size(),
            ({
                let image = old(self).stream()->0;
                if image@.avail() == 0 || image@.source is Ram {
                    &&& r is Poll
                    &&& final(self).stream() is Some
                    &&& is_polled(image, final(self).stream()->0, r->Poll_0)
                    &&& r->Poll_0 is End && image@.source is Ram ==> final(self).stream()->0@.emitted
                        == image@.body
                } else {
                    &&& r is Dispatch
                    &&& final(self).stream() is None
                    &&& r->Dispatch_0.wf()
                    &&& r->Dispatch_0@ == image@
                    &&& image@.body.len() == final(self).size()
                    &&& r->Dispatch_0.arbiter().state is Once
                }
            }),
    {
        match self.image.take() {
            None => DispatchStep::Canceled,
            Some(mut image) => {
                let r = image.poll_impl();
                match r {
                    StreamPoll::Pending => {
                        image.arbiter.set(Blocking::Once);
                        DispatchStep::Dispatch(image)
                    },
                    r => {
                        self.image = Some(image);
                        DispatchStep::Poll(r)
                    },
                }
            },
        }
    }

    /// Go on, while the stream is dispatched, by how far that has got. Returns
    /// `None` where the operation was completed, with the outcome of which the
    /// caller goes on.
    pub fn dispatch_polled<B>(&mut self, poll: DispatchPoll<F, M, S>) -> (r: Option<DispatchStep<B, F, M, S>>)
        requires
            old(self).wf(),
            old(self).stream() is None,
            poll is Ready ==> {
                &&& poll->Ready_0.wf()
                &&& poll->Ready_0@.body.len() == old(self).size()
                &&& poll->Ready_0.arbiter().state is Void
            },
        ensures
            final(self).wf(),
            final(self).size() == old(self).size(),
            match poll {
                DispatchPoll::Pending => *final(self) == *old(self) && r == Some(
                    DispatchStep::<B, F, M, S>::Poll(StreamPoll::Pending),
                ),
                DispatchPoll::Canceled => *final(self) == *old(self) && r == Some(
                    DispatchStep::<B, F, M, S>::Canceled,
                ),
                DispatchPoll::Ready(image) => r is None && final(self).stream() == Some(image),
            },
    {
        match poll {
            DispatchPoll::Pending => Some(DispatchStep::Poll(StreamPoll::Pending)),
            DispatchPoll::Canceled => Some(DispatchStep::Canceled),
            DispatchPoll::Ready(image) => {
                self.image = Some(image);
                None
            },
        }
    }

    /// The exact number of bytes of the body.
    pub fn size_hint(&self) -> (n: u64)
        ensures
            n == self.size(),
    {
        self.len
    }

    /// Whether all of the bytes were given. This is not so while the stream is
    /// dispatched.
    pub fn is_end_stream(&self) -> (b: bool)
        requires
            self.wf(),
        ensures
            b == (self.stream() matches Some(i) && i@.avail() == 0),
    {
        match &self.image {
            Some(image) => image.is_end_stream(),
            None => false,
        }
    }
}

/// A stream that is allowed to block once, and needs to, is not pending, and has
/// then to ask again.
pub proof fn law_one_grant_one_block<B: OutputBuf<M>, F, M: Region, S: Copy>(
    before: AsyncBodyImage<F, M, S, StatefulArbiter>,
    after: AsyncBodyImage<F, M, S, StatefulArbiter>,
    r: StreamPoll<B, M>,
)
    requires
        before.arbiter().state is Once,
        before@.avail() != 0,
        !(before@.source is Ram),
        is_polled(before, after, r),
    ensures
        !(r is Pending),
        !(r is Item),
        after.arbiter().state is Void,
        !grants(after.arbiter().state),
        after_request(after.arbiter().state) is Pending,
{
}

/// What a read of a file makes of a stream.
pub open spec fn read_from_file<F, M>(v: StreamView<F, M>, data: Seq<u8>) -> StreamView<F, M> {
    let rs = v.source->File_0;
    StreamView {
        source: Source::File(ReadSlice { pos: (rs.pos + data.len()) as u64, ..rs }),
        emitted: v.emitted + data,
        ..v
    }
}

/// The elements of a vector, last to first.
fn reversed(v: Vec<Bytes>) -> (r: Vec<Bytes>)
    ensures
        r@ == v@.reverse(),
{
    let ghost all = v@;
    let mut from = v;
    let mut r: Vec<Bytes> = Vec::with_capacity(from.len());
    while from.len() > 0
        invariant
            from@.len() + r@.len() == all.len(),
            from@ == all.take(from@.len() as int),
            r@ == all.skip(from@.len() as int).reverse(),
        decreases from@.len(),
    {
        let ghost n = from@.len() - 1;
        if let Some(b) = from.pop() {
            r.push(b);
        }
        assert(r@ =~= all.skip(n).reverse());
    }
    assert(all.skip(0) =~= all);
    r
}

/// As long as each item is what the file holds at the range that was asked for,
/// the items are the bytes of the file in order, and once all of them were given
/// they are those of the body, from the position at which the stream started.
pub proof fn law_file_items_in_order<F, M>(v: StreamView<F, M>, data: Seq<u8>, file: Seq<u8>, start: int)
    requires
        v.follows(file, start),
        data.len() <= v.next_range().len,
        v.emitted.len() <= v.body.len(),
        v.source->File_0.pos + data.len() <= file.len() <= u64::MAX,
        data == file.subrange(
            v.source->File_0.pos as int,
            v.source->File_0.pos + data.len(),
        ),
    ensures
        read_from_file(v, data).follows(file, start),
        read_from_file(v, data).emitted.len() <= v.body.len(),
        read_from_file(v, data).avail() == 0 ==> read_from_file(v, data).emitted == file.subrange(
            start,
            start + v.body.len(),
        ),
{
    let pos = v.source->File_0.pos as int;
    assert(file.subrange(start, pos) + file.subrange(pos, pos + data.len()) =~= file.subrange(
        start,
        pos + data.len(),
    ));
}

/// What a series of reads of a file makes of a stream.
pub open spec fn read_all_from_file<F, M>(v: StreamView<F, M>, reads: Seq<Seq<u8>>) -> StreamView<F, M>
    decreases reads.len(),
{
    if reads.len() == 0 {
        v
    } else {
        read_from_file(read_all_from_file(v, reads.drop_last()), reads.last())
    }
}

/// Whether each of a series of reads gave what the file holds at the range that
/// was asked for, or the first part of it.
pub open spec fn are_reads_of<F, M>(v: StreamView<F, M>, reads: Seq<Seq<u8>>, file: Seq<u8>) -> bool
    decreases reads.len(),
{
    reads.len() == 0 || {
        let w = read_all_from_file(v, reads.drop_last());
        let pos = w.source->File_0.pos as int;
        let data = reads.last();
        &&& are_reads_of(v, reads.drop_last(), file)
        &&& data.len() <= w.next_range().len
        &&& pos + data.len() <= file.len()
        &&& data == file.subrange(pos, pos + data.len())
    }
}

/// However the reads of a file turn out in length, the items of a stream are the
/// bytes of the file in order, never more than the body has, and once none are to
/// come they are those of the body.
pub proof fn law_file_is_streamed<F, M>(v: StreamView<F, M>, reads: Seq<Seq<u8>>, file: Seq<u8>, start: int)
    requires
        v.follows(file, start),
        v.emitted.len() <= v.body.len(),
        file.len() <= u64::MAX,
        are_reads_of(v, reads, file),
    ensures
        ({
            let w = read_all_from_file(v, reads);
            &&& w.follows(file, start)
            &&& w.body == v.body
            &&& w.emitted.len() <= w.body.len()
            &&& w.avail() == 0 ==> w.emitted == file.subrange(start, start + v.body.len())
        }),
    decreases reads.len(),
{
    if reads.len() > 0 {
        law_file_is_streamed(v, reads.drop_last(), file, start);
        law_file_items_in_order(read_all_from_file(v, reads.drop_last()), reads.last(), file, start);
    }
}

/// A read never goes past what is to come of the body, nor past the end of the
/// range of the file.
pub proof fn law_reads_stay_inside<F, M>(v: StreamView<F, M>)
    requires
        v.source is File,
        v.emitted.len() <= v.body.len(),
    ensures
        v.next_range().len <= v.buffer_size,
        v.next_range().len <= v.avail(),
        v.next_range().len > 0 ==> v.next_range().offset + v.next_range().len <= v.source->File_0.end,
{
}

/// Whether a stream is as it should be: the items so far are the start of the
/// body, and the source has the rest of it. For a stream from a file, `file` is
/// what the file holds.
pub open spec fn is_on_track<F, M: Region>(v: StreamView<F, M>, file: Seq<u8>) -> bool {
    &&& v.emitted.len() <= v.body.len()
    &&& v.emitted == v.body.take(v.emitted.len() as int)
    &&& match v.source {
        Source::Ram(bufs) => {
            &&& v.emitted + joined(bufs) == v.body
            &&& forall|i: int| 0 <= i < bufs.len() ==> bytes_content(#[trigger] bufs[i]).len() > 0
        },
        Source::File(rs) => {
            &&& v.buffer_size > 0
            &&& rs.pos + v.avail() == rs.end
            &&& rs.end <= file.len()
            &&& file.subrange(rs.pos as int, rs.end as int) == v.body.skip(v.emitted.len() as int)
        },
        Source::MemMap(Some(m)) => v.avail() > 0 && m.bytes() == v.body.skip(v.emitted.len() as int),
        Source::MemMap(None) => v.avail() == 0,
    }
}

/// Whether some bytes can be the next item of a stream. From a file this is any
/// part, but no empty one, of the range that is asked for.
pub open spec fn is_next_item<F, M: Region>(v: StreamView<F, M>, item: Seq<u8>, file: Seq<u8>) -> bool {
    v.avail() > 0 && match v.source {
        Source::Ram(bufs) => bufs.len() > 0 && item == bytes_content(bufs[0]),
        Source::File(rs) => {
            &&& 0 < item.len() <= v.next_range().len
            &&& rs.pos + item.len() <= file.len()
            &&& item == file.subrange(rs.pos as int, rs.pos + item.len())
        },
        Source::MemMap(Some(m)) => item == m.bytes(),
        Source::MemMap(None) => false,
    }
}

/// A stream after its next item.
pub open spec fn after_item<F, M: Region>(v: StreamView<F, M>, item: Seq<u8>) -> StreamView<F, M> {
    match v.source {
        Source::Ram(bufs) => StreamView { source: Source::Ram(bufs.skip(1)), emitted: v.emitted + item, ..v },
        Source::File(_) => read_from_file(v, item),
        Source::MemMap(_) => StreamView { source: Source::MemMap(None), emitted: v.emitted + item, ..v },
    }
}

/// Whether some runs of bytes can be the next items of a stream, in this order.
pub open spec fn are_next_items<F, M: Region>(v: StreamView<F, M>, items: Seq<Seq<u8>>, file: Seq<u8>) -> bool
    decreases items.len(),
{
    items.len() == 0 || (is_next_item(v, items[0], file) && are_next_items(
        after_item(v, items[0]),
        items.skip(1),
        file,
    ))
}

/// A stream after its next items.
pub open spec fn after_items<F, M: Region>(v: StreamView<F, M>, items: Seq<Seq<u8>>) -> StreamView<F, M>
    decreases items.len(),
{
    if items.len() == 0 {
        v
    } else {
        after_items(after_item(v, items[0]), items.skip(1))
    }
}

/// A new stream of a body is on track, if its file holds the body, or its map is
/// the body.
pub proof fn law_new_stream_is_on_track<F, M: Region, S: Copy, BA: BlockingArbiter>(
    body: BodyImage<F, M>,
    image: AsyncBodyImage<F, M, S, BA>,
    file: Seq<u8>,
)
    requires
        image.wf(),
        image@.body == body@,
        image@.emitted == Seq::<u8>::empty(),
        is_source(body, image@.source),
        image@.buffer_size > 0,
        body.in_file() ==> body@.len() <= file.len() && file.take(body@.len() as int) == body@,
        body.in_slice() ==> {
            let rs = body.the_slice();
            &&& rs.start == rs.pos
            &&& rs.pos <= rs.end <= file.len()
            &&& file.subrange(rs.start as int, rs.end as int) == body@
        },
        body.in_map() ==> body@.len() > 0 && body.the_map().bytes() == body@,
    ensures
        is_on_track(image@, file),
{
    let v = image@;
    body.lemma_one_state();
    assert(v.emitted =~= v.body.take(0));
    assert(v.body.skip(0) =~= v.body);
    match v.source {
        Source::Ram(bufs) => {
            let held = image.state->Ram_0@;
            assert forall|i: int| 0 <= i < bufs.len() implies bytes_content(#[trigger] bufs[i]).len() > 0 by {
                assert(bufs[i] == held[held.len() - 1 - i]);
            }
        },
        Source::File(rs) => {
            if body.in_file() {
                assert(file.subrange(0, rs.end as int) =~= file.take(rs.end as int));
            }
        },
        _ => {},
    }
}

/// A poll of a stream that is on track and may block ends it exactly if all of
/// the body was given, and then changes nothing. Otherwise it leads to an item:
/// at once, or by reading some of a range that is not empty and lies within the
/// file, or by a memory map.
pub proof fn law_poll_leads_to_item<B: OutputBuf<M>, F, M: Region, S: Copy, BA: BlockingArbiter>(
    before: AsyncBodyImage<F, M, S, BA>,
    after: AsyncBodyImage<F, M, S, BA>,
    r: StreamPoll<B, M>,
    file: Seq<u8>,
)
    requires
        is_on_track(before@, file),
        before.arbiter().permits(),
        is_polled(before, after, r),
    ensures
        r is End <==> before@.avail() == 0,
        match r {
            StreamPoll::End => before@.emitted == before@.body && after@ == before@,
            StreamPoll::Pending => false,
            StreamPoll::Item(b) => is_next_item(before@, b.bytes(), file) && after@ == after_item(
                before@,
                b.bytes(),
            ),
            StreamPoll::Read(range) => {
                &&& after@ == before@
                &&& 0 < range.len <= before@.buffer_size
                &&& range.offset + range.len <= file.len()
                &&& forall|n: int|
                    0 < n <= range.len ==> is_next_item(
                        before@,
                        #[trigger] file.subrange(range.offset as int, range.offset + n),
                        file,
                    )
            },
            StreamPoll::Advise(m) => {
                &&& is_next_item(before@, m.bytes(), file)
                &&& (StreamView { emitted: after@.emitted + m.bytes(), ..after@ }) == after_item(
                    before@,
                    m.bytes(),
                )
            },
        },
{
    let v = before@;
    if v.avail() == 0 {
        assert(v.body.take(v.body.len() as int) =~= v.body);
    }
}

/// A stream that is on track stays so with its next item, which is not empty.
pub proof fn law_item_keeps_track<F, M: Region>(v: StreamView<F, M>, item: Seq<u8>, file: Seq<u8>)
    requires
        is_on_track(v, file),
        is_next_item(v, item, file),
    ensures
        item.len() > 0,
        is_on_track(after_item(v, item), file),
        after_item(v, item).body == v.body,
        after_item(v, item).emitted == v.emitted + item,
        after_item(v, item).buffer_size == v.buffer_size,
{
    let w = after_item(v, item);
    let n = v.emitted.len() as int;
    match v.source {
        Source::Ram(bufs) => {
            lemma_joined_first(bufs);
            let rest = bufs.skip(1);
            assert(v.emitted + (item + joined(rest)) =~= (v.emitted + item) + joined(rest));
            assert(w.emitted =~= v.body.take(n + item.len()));
            assert forall|i: int| 0 <= i < rest.len() implies bytes_content(#[trigger] rest[i]).len() > 0 by {
                assert(rest[i] == bufs[i + 1]);
            }
        },
        Source::File(rs) => {
            let left = file.subrange(rs.pos as int, rs.end as int);
            assert(item =~= left.take(item.len() as int));
            assert(w.emitted =~= v.body.take(n + item.len())) by {
                assert forall|i: int| 0 <= i < item.len() implies item[i] == v.body[n + i] by {
                    assert(left[i] == v.body.skip(n)[i]);
                }
            }
            assert(file.subrange(rs.pos + item.len(), rs.end as int) =~= left.skip(item.len() as int));
            assert(v.body.skip(n).skip(item.len() as int) =~= v.body.skip(n + item.len()));
        },
        _ => {
            assert(w.emitted =~= v.body);
            assert(v.body.take(v.body.len() as int) =~= v.body);
        },
    }
}

/// The items of a stream are the body, in order: together they are what it
/// starts with, and all of it once none are to come. None is empty. From RAM
/// there is an item for each buffer, from a memory map there is one item, and
/// from a file no item is longer than the size of buffers.
pub proof fn law_items_are_the_body<F, M: Region>(v: StreamView<F, M>, items: Seq<Seq<u8>>, file: Seq<u8>)
    requires
        is_on_track(v, file),
        are_next_items(v, items, file),
    ensures
        is_on_track(after_items(v, items), file),
        after_items(v, items).body == v.body,
        after_items(v, items).emitted == v.emitted + concatenated(items),
        v.emitted.len() == 0 ==> concatenated(items) == v.body.take(concatenated(items).len() as int),
        v.emitted.len() == 0 && after_items(v, items).avail() == 0 ==> concatenated(items) == v.body,
        forall|i: int| 0 <= i < items.len() ==> (#[trigger] items[i]).len() > 0,
        match v.source {
            Source::Ram(bufs) => {
                &&& items.len() <= bufs.len()
                &&& after_items(v, items).avail() == 0 <==> items.len() == bufs.len()
                &&& forall|i: int| 0 <= i < items.len() ==> #[trigger] items[i] == bytes_content(bufs[i])
            },
            Source::File(_) => forall|i: int|
                0 <= i < items.len() ==> (#[trigger] items[i]).len() <= v.buffer_size,
            Source::MemMap(Some(m)) => {
                &&& items.len() <= 1
                &&& after_items(v, items).avail() == 0 <==> items.len() == 1
                &&& items.len() == 1 ==> items[0] == m.bytes()
            },
            Source::MemMap(None) => items.len() == 0,
        },
    decreases items.len(),
{
    if items.len() == 0 {
        assert(v.emitted + concatenated(items) =~= v.emitted);
        if let Source::Ram(bufs) = v.source {
            if bufs.len() > 0 {
                lemma_joined_first(bufs);
                assert(bytes_content(bufs[0]).len() > 0);
                assert(v.body.len() == v.emitted.len() + joined(bufs).len());
            } else {
                assert(joined(bufs) =~= Seq::<u8>::empty());
                assert(v.body.len() == v.emitted.len() + joined(bufs).len());
            }
        }
    } else {
        let w = after_item(v, items[0]);
        let rest = items.skip(1);
        law_item_keeps_track(v, items[0], file);
        law_items_are_the_body(w, rest, file);
        assert(w.emitted + concatenated(rest) =~= v.emitted + concatenated(items));
        assert forall|i: int| 0 <= i < items.len() implies (#[trigger] items[i]).len() > 0 by {
            if i > 0 {
                assert(items[i] == rest[i - 1]);
            }
        }
        match v.source {
            Source::Ram(bufs) => {
                assert forall|i: int| 0 <= i < items.len() implies #[trigger] items[i] == bytes_content(
                    bufs[i],
                ) by {
                    if i > 0 {
                        assert(items[i] == rest[i - 1]);
                        assert(bufs.skip(1)[i - 1] == bufs[i]);
                    }
                }
            },
            Source::File(_) => {
                assert forall|i: int| 0 <= i < items.len() implies (#[trigger] items[i]).len()
                    <= v.buffer_size by {
                    if i > 0 {
                        assert(items[i] == rest[i - 1]);
                    }
                }
            },
            _ => {},
        }
    }
    let all = v.emitted + concatenated(items);
    if v.emitted.len() == 0 {
        assert(all =~= concatenated(items));
        if after_items(v, items).avail() == 0 {
            assert(v.body.take(v.body.len() as int) =~= v.body);
        }
    }
}

/// What a poll of a stream that may block gives: the end exactly if all of the body was
/// given, and otherwise the next buffer, the next range of the file, or the map. The
/// range is where the file was left, and as long as the size of buffers, the rest of
/// the body and the rest of the file allow.
pub proof fn law_stream_is_polled<B: OutputBuf<M>, F, M: Region, S: Copy>(
    s: &mut AsyncBodyImage<F, M, S, LenientArbiter>,
    r: StreamPoll<B, M>,
)
    requires
        old(s).wf(),
        call_ensures(AsyncBodyImage::<F, M, S, LenientArbiter>::poll_impl::<B>, (s,), r),
    ensures
        ({
            let v = old(s)@;
            let w = final(s)@;
            let left = v.body.len() - v.emitted.len();
            &&& w.body == v.body
            &&& w.buffer_size == v.buffer_size
            &&& left == 0 ==> r is End && w == v
            &&& left > 0 ==> {
                match v.source {
                    Source::Ram(bufs) => {
                        &&& (r matches StreamPoll::Item(b) && b.bytes() == bytes_content(bufs[0]))
                        &&& w.source == Source::<F, M>::Ram(bufs.skip(1))
                        &&& w.emitted == v.emitted + bytes_content(bufs[0])
                    },
                    Source::File(rs) => {
                        &&& w == v
                        &&& (r matches StreamPoll::Read(range) && {
                            &&& rs.pos < rs.end ==> range.offset == rs.pos
                            &&& range.len <= v.buffer_size && range.len <= left
                            &&& rs.pos <= rs.end ==> range.len <= rs.end - rs.pos
                            &&& range.len == v.buffer_size || range.len == left || rs.pos + range.len >= rs.end
                        })
                    },
                    Source::MemMap(Some(m)) => {
                        &&& r == StreamPoll::<B, M>::Advise(m)
                        &&& w.source == Source::<F, M>::MemMap(None) && w.emitted == v.emitted
                    },
                    Source::MemMap(None) => {
                        &&& w == v
                        &&& r is End
                    },
                }
            }
        }),
{
}

/// A poll of a stream that has to ask before it blocks is pending exactly if it needs to
/// block and is not allowed to, and then changes nothing. Buffers in RAM need not be
/// asked for.
pub proof fn law_stream_is_polled_by_arbiter<B: OutputBuf<M>, F, M: Region, S: Copy>(
    s: &mut AsyncBodyImage<F, M, S, StatefulArbiter>,
    r: StreamPoll<B, M>,
)
    requires
        old(s).wf(),
        call_ensures(AsyncBodyImage::<F, M, S, StatefulArbiter>::poll_impl::<B>, (s,), r),
    ensures
        ({
            let v = old(s)@;
            let w = final(s)@;
            let left = v.body.len() - v.emitted.len();
            &&& w.body == v.body
            &&& w.buffer_size == v.buffer_size
            &&& left == 0 ==> r is End && w == v
            &&& v.source is Ram || v.body.len() == v.emitted.len()
                ==> final(s).arbiter().state == old(s).arbiter().state
            &&& !(v.source is Ram) && v.body.len() > v.emitted.len() && old(s).arbiter().state is Once
                ==> final(s).arbiter().state is Void
            &&& !(v.source is Ram) && v.body.len() > v.emitted.len() && !(old(s).arbiter().state is Once
                || old(s).arbiter().state is Always) ==> final(s).arbiter().state is Pending
            &&& left > 0 ==> {
                let granted = old(s).arbiter().state is Once || old(s).arbiter().state is Always;
                match v.source {
                    Source::Ram(bufs) => {
                        &&& (r matches StreamPoll::Item(b) && b.bytes() == bytes_content(bufs[0]))
                        &&& w.source == Source::<F, M>::Ram(bufs.skip(1))
                        &&& w.emitted == v.emitted + bytes_content(bufs[0])
                    },
                    Source::File(rs) => {
                        &&& w == v
                        &&& !granted ==> r is Pending && w == v
                        &&& granted ==> (r matches StreamPoll::Read(range) && {
                            &&& rs.pos < rs.end ==> range.offset == rs.pos
                            &&& range.len <= v.buffer_size && range.len <= left
                            &&& rs.pos <= rs.end ==> range.len <= rs.end - rs.pos
                            &&& range.len == v.buffer_size || range.len == left || rs.pos + range.len >= rs.end
                        })
                    },
                    Source::MemMap(Some(m)) => {
                        &&& !granted ==> r is Pending && w == v
                        &&& granted ==> r == StreamPoll::<B, M>::Advise(m)
                        &&& granted ==> w.source == Source::<F, M>::MemMap(None) && w.emitted == v.emitted
                    },
                    Source::MemMap(None) => {
                        &&& w == v
                        &&& !granted ==> r is Pending && w == v
                        &&& granted ==> r is End
                    },
                }
            }
        }),
{
}

/// What was read of a file is the next item of a stream, and moves it on by as
/// much. Nothing ends the stream, and an interruption asks for the same again.
pub proof fn law_stream_reads<B: OutputBuf<M>, F, M: Region, S: Copy, BA: BlockingArbiter>(
    s: &mut AsyncBodyImage<F, M, S, BA>,
    data: Option<Bytes>,
    r: StreamPoll<B, M>,
)
    requires
        old(s).wf(),
        old(s)@.source matches Source::File(rs) && rs.pos + 1 <= rs.end,
        data matches Some(b) ==> old(s)@.source->File_0.pos + bytes_content(b).len() <= u64::MAX,
        call_ensures(AsyncBodyImage::<F, M, S, BA>::read_done::<B>, (s, data), r),
    ensures
        ({
            let v = old(s)@;
            let w = final(s)@;
            let rs = v.source->File_0;
            &&& w.body == v.body
            &&& w.buffer_size == v.buffer_size
            &&& data is None ==> w == v && (r matches StreamPoll::Read(range) && range.offset == rs.pos && range.len
                <= v.buffer_size && range.len <= rs.end - rs.pos)
            &&& data matches Some(b) ==> {
                &&& bytes_content(b).len() == 0 ==> r is End && w == v
                &&& bytes_content(b).len() > 0 ==> {
                    &&& (r matches StreamPoll::Item(item) && item.bytes() == bytes_content(b))
                    &&& w.emitted == v.emitted + bytes_content(b)
                    &&& (w.source matches Source::File(to) && to.pos == rs.pos + bytes_content(b).len() && to.start
                        == rs.start && to.end == rs.end && to.file == rs.file)
                }
            }
        }),
{
}

/// A memory map is an item of all its bytes.
pub proof fn law_stream_maps<B: OutputBuf<M>, F, M: Region, S: Copy, BA: BlockingArbiter>(
    s: &mut AsyncBodyImage<F, M, S, BA>,
    mmap: M,
    r: B,
)
    requires
        call_ensures(AsyncBodyImage::<F, M, S, BA>::mapped::<B>, (s, mmap), r),
    ensures
        r.bytes() == mmap.bytes(),
        final(s)@.emitted == old(s)@.emitted + mmap.bytes(),
        final(s)@.body == old(s)@.body,
        final(s)@.source == old(s)@.source,
        final(s)@.buffer_size == old(s)@.buffer_size,
{
}

/// What a stream says of itself: the length of the body, whether all of it was
/// given, whether it comes from RAM, and the semaphore of its policy.
pub proof fn law_stream_state<F, M: Region, S: Copy, BA: BlockingArbiter>(
    s: AsyncBodyImage<F, M, S, BA>,
    n: u64,
    end: bool,
    ram: bool,
    semaphore: Option<S>,
)
    requires
        s.wf(),
        call_ensures(AsyncBodyImage::<F, M, S, BA>::size_hint, (&s,), n),
        call_ensures(AsyncBodyImage::<F, M, S, BA>::is_end_stream, (&s,), end),
        call_ensures(AsyncBodyImage::<F, M, S, BA>::is_ram, (&s,), ram),
        call_ensures(AsyncBodyImage::<F, M, S, BA>::blocking_semaphore, (&s,), semaphore),
    ensures
        n == s@.body.len(),
        end <==> s@.emitted.len() == n,
        ram <==> s@.source is Ram,
        forall|p: S| semaphore == Some(p) <==> s.policy() == BlockingPolicy::Permit(p),
{
}

/// Where the items of a new stream come from, whatever its kind: from the buffers in
/// their order, from the range of the file, or from the map.
pub proof fn law_new_streams<F, M: Region, S: Copy, BA: BlockingArbiter>(
    body: BodyImage<F, M>,
    tune: FutioTunables<S>,
    arbiter: BA,
    a: AsyncBodyImage<F, M, S, LenientArbiter>,
    b: AsyncBodyImage<F, M, S, BA>,
    c: PermitBodyImage<F, M, S>,
    d: DispatchBodyImage<F, M, S>,
    v: StreamView<F, M>,
    given: ExplodedImage<F, M>,
)
    requires
        call_ensures(AsyncBodyImage::<F, M, S, LenientArbiter>::new, (body, tune), a),
        call_ensures(AsyncBodyImage::<F, M, S, BA>::with_arbiter, (body, tune, arbiter), b),
        call_ensures(PermitBodyImage::<F, M, S>::new, (body, tune), c),
        call_ensures(DispatchBodyImage::<F, M, S>::new, (body, tune), d),
        v == a@ || v == b@ || v == c.stream()@ || v == d.stream()->0@,
        call_ensures(BodyImage::<F, M>::explode, (body,), given),
    ensures
        v.body == body@,
        v.emitted == Seq::<u8>::empty(),
        v.buffer_size == tune.image.buffer_size_fs,
        given matches ExplodedImage::Ram(bufs) ==> v.source == Source::<F, M>::Ram(bufs@),
        given matches ExplodedImage::FsRead(rs) ==> v.source == Source::<F, M>::File(rs),
        given matches ExplodedImage::MemMap(m) ==> v.source == Source::<F, M>::MemMap(Some(m)),
        a.policy() == tune.blocking_policy && b.policy() == tune.blocking_policy,
        c.stream().policy() == tune.blocking_policy,
        b.arbiter() == arbiter,
        !c.waits(),
        d.stream() is Some,
        d.size() == body@.len(),
{
    body.lemma_one_state();
}

/// A stream with permits asks for one of its semaphore exactly if bytes are to come,
/// and not from RAM. Otherwise it gives the next buffer or the end.
pub proof fn law_permit_stream_is_polled<B: OutputBuf<M>, F, M: Region, S: Copy>(
    s: &mut PermitBodyImage<F, M, S>,
    r: PermitStep<B, M, S>,
)
    requires
        old(s).wf(),
        !old(s).waits(),
        call_ensures(PermitBodyImage::<F, M, S>::poll_next::<B>, (s,), r),
    ensures
        ({
            let v = old(s).stream()@;
            let w = final(s).stream()@;
            let blocks = v.body.len() > v.emitted.len() && !(v.source is Ram);
            &&& final(s).waits() <==> blocks
            &&& blocks ==> w == v
            &&& blocks && old(s).stream().policy() is Permit ==> (r matches PermitStep::Ask(p)
                && old(s).stream().policy() == BlockingPolicy::Permit(p))
            &&& v.body.len() == v.emitted.len() ==> (r matches PermitStep::Poll(p) && p is End) && w == v
            &&& v.body.len() > v.emitted.len() && v.source is Ram ==> {
                let first = v.source->Ram_0[0];
                &&& (r matches PermitStep::Poll(StreamPoll::Item(b)) && b.bytes() == bytes_content(first))
                &&& w.emitted == v.emitted + bytes_content(first)
                &&& w.source == Source::<F, M>::Ram(v.source->Ram_0.skip(1))
                &&& w.body == v.body
            }
        }),
{
}

/// Once the permit was granted, a stream with permits does what one that may block
/// does, once. Until then nothing changes, and never if it was canceled.
pub proof fn law_permit_stream_goes_on<B: OutputBuf<M>, F, M: Region, S: Copy>(
    s: &mut PermitBodyImage<F, M, S>,
    permit: WaitPoll,
    r: PermitStep<B, M, S>,
)
    requires
        old(s).wf(),
        old(s).waits(),
        call_ensures(PermitBodyImage::<F, M, S>::permit_polled::<B>, (s, permit), r),
    ensures
        ({
            let v = old(s).stream()@;
            let w = final(s).stream()@;
            &&& permit is Pending ==> *final(s) == *old(s) && (r matches PermitStep::Poll(p) && p is Pending)
            &&& permit is Canceled ==> *final(s) == *old(s) && r is Canceled
            &&& permit is Ready ==> !final(s).waits() && w.body == v.body && w.emitted == v.emitted
            &&& permit is Ready && v.source is File && v.source->File_0.pos < v.source->File_0.end ==> {
                &&& w == v
                &&& (r matches PermitStep::Poll(StreamPoll::Read(range)) && {
                    &&& range.offset == v.source->File_0.pos
                    &&& range.len <= v.buffer_size && range.len <= v.body.len() - v.emitted.len()
                    &&& range.offset + range.len <= v.source->File_0.end
                    &&& range.len == v.buffer_size || range.len == v.body.len() - v.emitted.len() || range.offset
                        + range.len == v.source->File_0.end
                })
            }
            &&& permit is Ready ==> (v.source matches Source::MemMap(Some(m)) ==> r == PermitStep::<B, M, S>::Poll(
                StreamPoll::Advise(m),
            ) && w.source == Source::<F, M>::MemMap(None))
            &&& permit is Ready && v.source == Source::<F, M>::MemMap(None) ==> (r matches PermitStep::Poll(p)
                && p is End) && w == v
        }),
{
}

/// A stream with permits takes what was read or mapped as any stream.
pub proof fn law_permit_stream_takes<B: OutputBuf<M>, F, M: Region, S: Copy>(
    s: &mut PermitBodyImage<F, M, S>,
    t: &mut PermitBodyImage<F, M, S>,
    data: Bytes,
    mmap: M,
    r: StreamPoll<B, M>,
    item: B,
    n: u64,
    end: bool,
    waiting: bool,
)
    requires
        old(s).wf(),
        old(s).stream()@.source is File,
        old(s).stream()@.source->File_0.pos + bytes_content(data).len() <= u64::MAX,
        call_ensures(PermitBodyImage::<F, M, S>::read_done::<B>, (s, Some(data)), r),
        call_ensures(PermitBodyImage::<F, M, S>::mapped::<B>, (t, mmap), item),
        call_ensures(PermitBodyImage::<F, M, S>::size_hint, (&*old(s),), n),
        call_ensures(PermitBodyImage::<F, M, S>::is_end_stream, (&*old(s),), end),
        call_ensures(PermitBodyImage::<F, M, S>::is_waiting, (&*old(s),), waiting),
    ensures
        ({
            let v = old(s).stream()@;
            let w = final(s).stream()@;
            &&& n == v.body.len()
            &&& end <==> v.emitted.len() == n
            &&& waiting == old(s).waits()
            &&& w.body == v.body && w.buffer_size == v.buffer_size
            &&& bytes_content(data).len() == 0 ==> r is End && w == v
            &&& bytes_content(data).len() > 0 ==> {
                &&& (r matches StreamPoll::Item(b) && b.bytes() == bytes_content(data))
                &&& w.emitted == v.emitted + bytes_content(data)
                &&& (w.source matches Source::File(to) && to.pos == v.source->File_0.pos + bytes_content(data).len()
                    && to.end == v.source->File_0.end && to.file == v.source->File_0.file)
            }
        }),
        item.bytes() == mmap.bytes(),
        final(t).stream()@.emitted == old(t).stream()@.emitted + mmap.bytes(),
        final(t).stream()@.body == old(t).stream()@.body,
{
}

/// A stream that dispatches is given away exactly if bytes are to come, and not from
/// RAM, as it is and allowed to block once. Otherwise it gives the next buffer or the
/// end.
pub proof fn law_dispatch_stream_is_polled<B: OutputBuf<M>, F, M: Region, S: Copy>(
    s: &mut DispatchBodyImage<F, M, S>,
    r: DispatchStep<B, F, M, S>,
    away: bool,
    n: u64,
)
    requires
        old(s).wf(),
        old(s).stream() is Some,
        call_ensures(DispatchBodyImage::<F, M, S>::poll_next::<B>, (s,), r),
        call_ensures(DispatchBodyImage::<F, M, S>::is_dispatched, (&*final(s),), away),
        call_ensures(DispatchBodyImage::<F, M, S>::size_hint, (&*final(s),), n),
    ensures
        ({
            let v = old(s).stream()->0@;
            let w = final(s).stream()->0@;
            let blocks = v.body.len() > v.emitted.len() && !(v.source is Ram);
            &&& n == v.body.len()
            &&& away <==> blocks
            &&& blocks ==> (r matches DispatchStep::Dispatch(image) && image@ == v && image.arbiter().state is Once)
            &&& v.body.len() == v.emitted.len() ==> (r matches DispatchStep::Poll(p) && p is End) && w == v
            &&& v.body.len() > v.emitted.len() && v.source is Ram ==> {
                let first = v.source->Ram_0[0];
                &&& (r matches DispatchStep::Poll(StreamPoll::Item(b)) && b.bytes() == bytes_content(first))
                &&& w.emitted == v.emitted + bytes_content(first)
                &&& w.source == Source::<F, M>::Ram(v.source->Ram_0.skip(1))
                &&& w.body == v.body
            }
        }),
{
}

/// A stream that is dispatched comes back as it was handed over, and is waited for
/// until then. It has not ended meanwhile.
pub proof fn law_dispatched_stream<B, F, M: Region, S: Copy>(
    s: &mut DispatchBodyImage<F, M, S>,
    poll: DispatchPoll<F, M, S>,
    r: Option<DispatchStep<B, F, M, S>>,
    before: bool,
    after: bool,
    ended: bool,
    end: bool,
)
    requires
        old(s).wf(),
        final(s).wf(),
        call_ensures(DispatchBodyImage::<F, M, S>::is_dispatched, (&*old(s),), before),
        before,
        call_ensures(DispatchBodyImage::<F, M, S>::is_end_stream, (&*old(s),), ended),
        call_ensures(DispatchBodyImage::<F, M, S>::dispatch_polled::<B>, (s, poll), r),
        call_ensures(DispatchBodyImage::<F, M, S>::is_dispatched, (&*final(s),), after),
        call_ensures(DispatchBodyImage::<F, M, S>::is_end_stream, (&*final(s),), end),
    ensures
        !ended,
        poll is Pending ==> after && *final(s) == *old(s) && (r matches Some(DispatchStep::Poll(p))
            && p is Pending),
        poll is Canceled ==> after && *final(s) == *old(s) && (r matches Some(c) && c is Canceled),
        poll matches DispatchPoll::Ready(image) ==> {
            &&& !after && r is None
            &&& final(s).stream() == Some(image)
            &&& end <==> image@.body.len() == image@.emitted.len()
        },
{
}

/// Whatever a stream does, its policy for blocking stays the same. What is reported
/// to it is not asked for.
pub proof fn law_stream_keeps_policy<B: OutputBuf<M>, F, M: Region, S: Copy>(
    a: &mut AsyncBodyImage<F, M, S, StatefulArbiter>,
    b: &mut AsyncBodyImage<F, M, S, StatefulArbiter>,
    c: &mut AsyncBodyImage<F, M, S, StatefulArbiter>,
    p: &mut PermitBodyImage<F, M, S>,
    q: &mut PermitBodyImage<F, M, S>,
    data: Option<Bytes>,
    mmap: M,
    permit: WaitPoll,
    r: StreamPoll<B, M>,
    t: StreamPoll<B, M>,
    item: B,
    u: PermitStep<B, M, S>,
    v: PermitStep<B, M, S>,
)
    requires
        call_ensures(AsyncBodyImage::<F, M, S, StatefulArbiter>::poll_impl::<B>, (a,), r),
        call_ensures(AsyncBodyImage::<F, M, S, StatefulArbiter>::read_done::<B>, (b, data), t),
        call_ensures(AsyncBodyImage::<F, M, S, StatefulArbiter>::mapped::<B>, (c, mmap), item),
        call_ensures(PermitBodyImage::<F, M, S>::poll_next::<B>, (p,), u),
        call_ensures(PermitBodyImage::<F, M, S>::permit_polled::<B>, (q, permit), v),
    ensures
        final(a).policy() == old(a).policy(),
        final(b).policy() == old(b).policy() && final(b).arbiter() == old(b).arbiter(),
        final(c).policy() == old(c).policy() && final(c).arbiter() == old(c).arbiter(),
        final(p).stream().policy() == old(p).stream().policy(),
        final(q).stream().policy() == old(q).stream().policy(),
{
}

} // verus!
