//! Streams and sinks that find out, whenever they need to block, how that can be
//! done: by a permit, by a pool of threads, or by a backup thread of the
//! executor.
use bytes::Bytes;
use vstd::prelude::*;

use crate::blocking::{Blocking, LenientArbiter, StatefulArbiter};
use crate::body::{BodyError, BodyImage, BodySink, ExplodedImage, WriteBack};
use crate::buf::bytes_content;
use crate::futio::buf::{InputBuf, MemMapBuf, OutputBuf, Region};
use crate::futio::sink::{is_countable, is_sent, must_block, AsyncBodySink, FlushStep};
use crate::futio::stream::{
    is_polled, is_source, read_from_file, AsyncBodyImage, Source, StreamPoll, StreamView, WaitPoll,
};
use crate::futio::FutioError;
use crate::tune::{BlockingPolicy, FutioTunables};

verus! {

/// Whom a blocking operation is delegated to.
#[derive(Clone, Copy, Debug, PartialEq, Eq, Structural)]
pub enum Delegate {
    /// No operation is delegated.
    Nobody,
    /// A permit is waited for.
    Permit,
    /// A pool of threads runs the operation.
    Dispatch,
}

/// What a poll of a [`UniBodyImage`] asks of the caller.
pub enum UniStep<B, F, M: Region, S: Copy> {
    /// What a poll of the stream itself asks.
    Poll(StreamPoll<B, M>),
    /// The operation was interrupted. Poll again soon.
    Again,
    /// Obtain a permit of the semaphore, poll it, and report by
    /// [`UniBodyImage::permit_polled`].
    Ask(S),
    /// Have the stream polled by the pool. Then hand it back by
    /// [`UniBodyImage::dispatch_polled`].
    Dispatch(AsyncBodyImage<F, M, S, LenientArbiter>),
    /// The permit or the operation was canceled, which is a failure.
    Canceled,
}

/// A stream that has its blocking operations run by a pool of threads if there
/// is one, or else by the current thread once a permit was obtained.
pub struct UniBodyImage<F, M: Region, S: Copy> {
    image: Option<AsyncBodyImage<F, M, S, LenientArbiter>>,
    delegate: Delegate,
    len: u64,
}

impl<F, M: Region, S: Copy> UniBodyImage<F, M, S> {
    /// The stream is here unless the pool has it, and a permit is only waited
    /// for where there is something to block for.
    pub closed spec fn wf(&self) -> bool {
        &&& self.image is None == self.delegate is Dispatch
        &&& self.image matches Some(i) ==> i.wf() && i@.body.len() == self.len
        &&& self.delegate is Permit ==> self.image->0@.avail() > 0 && !(self.image->0@.source is Ram)
    }

    /// The stream itself, unless the pool has it.
    pub closed spec fn stream(&self) -> Option<AsyncBodyImage<F, M, S, LenientArbiter>> {
        self.image
    }

    /// Whom the blocking operation is delegated to.
    pub closed spec fn delegated(&self) -> Delegate {
        self.delegate
    }

    /// The number of bytes of the body.
    pub closed spec fn size(&self) -> int {
        self.len as int
    }

    /// A stream of a body.
    pub fn new(body: BodyImage<F, M>, tune: FutioTunables<S>) -> (r: Self)
        requires
            body.in_map() ==> body.the_map().bytes().len() == body@.len(),
        ensures
            r.wf(),
            r.delegated() is Nobody,
            r.size() == body@.len(),
            r.stream() is Some,
            r.stream()->0@.body == body@,
            r.stream()->0@.emitted == Seq::<u8>::empty(),
            r.stream()->0@.buffer_size == tune.image.buffer_size_fs,
            r.stream()->0.policy() == tune.blocking_policy,
            is_source(body, r.stream()->0@.source),
    {
        let len: u64 = body.len();
        UniBodyImage { image: Some(AsyncBodyImage::new(body, tune)), delegate: Delegate::Nobody, len }
    }

    /// Whom the blocking operation is delegated to.
    pub fn delegate(&self) -> (r: Delegate)
        ensures
            r == self.delegated(),
    {
        self.delegate
    }

    /// Poll for the next item, while nothing is delegated. Bodies in RAM are
    /// never blocked for. Otherwise, as long as bytes are to come, the operation
    /// is dispatched to the pool, or if there is none a permit is asked for, of
    /// the semaphore that the policy then has to have.
    pub fn poll_next<B: OutputBuf<M>>(&mut self, has_pool: bool) -> (r: UniStep<B, F, M, S>)
        requires
            old(self).wf(),
            old(self).delegated() is Nobody,
            has_pool || old(self).stream()->0@.source is Ram || old(self).stream()->0@.avail() == 0 || old(
                self).stream()->0.policy() is Permit,
        ensures
            final(self).wf(),
            final(self).size() == old(self).size(),
            ({
                let image = old(self).stream()->0;
                if image@.avail() == 0 || image@.source is Ram {
                    &&& r is Poll
                    &&& final(self).delegated() is Nobody
                    &&& is_polled(image, final(self).stream()->0, r->Poll_0)
                    &&& r->Poll_0 is End && image@.source is Ram ==> final(self).stream()->0@.emitted
                        == image@.body
                    &&& final(self).stream()->0.policy() == image.policy()
                } else if has_pool {
                    &&& r == UniStep::<B, F, M, S>::Dispatch(image)
                    &&& image.wf()
                    &&& image@.body.len() == final(self).size()
                    &&& final(self).delegated() is Dispatch
                } else {
                    &&& r == UniStep::<B, F, M, S>::Ask(image.policy()->Permit_0)
                    &&& final(self).delegated() is Permit
                    &&& final(self).stream() == old(self).stream()
                }
            }),
    {
        match self.image.take() {
            None => UniStep::Canceled,
            Some(mut image) => {
                if image.is_ram() || image.is_end_stream() {
                    let r = image.poll_impl();
                    self.image = Some(image);
                    UniStep::Poll(r)
                } else if has_pool {
                    self.delegate = Delegate::Dispatch;
                    UniStep::Dispatch(image)
                } else {
                    self.delegate = Delegate::Permit;
                    let s = image.blocking_semaphore();
                    self.image = Some(image);
                    match s {
                        Some(s) => UniStep::Ask(s),
                        None => UniStep::Canceled,
                    }
                }
            },
        }
    }

    /// Go on, while a permit is waited for, by how far it has got. Once it was
    /// granted the blocking operation is to be run.
    pub fn permit_polled<B: OutputBuf<M>>(&mut self, permit: WaitPoll) -> (r: UniStep<B, F, M, S>)
        requires
            old(self).wf(),
            old(self).delegated() is Permit,
        ensures
            final(self).wf(),
            final(self).size() == old(self).size(),
            match permit {
                WaitPoll::Pending => *final(self) == *old(self) && r == UniStep::<B, F, M, S>::Poll(
                    StreamPoll::Pending,
                ),
                WaitPoll::Canceled => *final(self) == *old(self) && r is Canceled,
                WaitPoll::Ready => {
                    &&& final(self).delegated() is Nobody
                    &&& r is Poll
                    &&& !(r->Poll_0 is Pending)
                    &&& is_polled(old(self).stream()->0, final(self).stream()->0, r->Poll_0)
                    &&& final(self).stream()->0.policy() == old(self).stream()->0.policy()
                    &&& r->Poll_0 is Advise ==> r->Poll_0->Advise_0.bytes().len() == final(
                        self).stream()->0@.avail()
                },
            },
    {
        match permit {
            WaitPoll::Pending => UniStep::Poll(StreamPoll::Pending),
            WaitPoll::Canceled => UniStep::Canceled,
            WaitPoll::Ready => {
                self.delegate = Delegate::Nobody;
                match self.image.take() {
                    None => UniStep::Canceled,
                    Some(mut image) => {
                        let r = image.poll_impl();
                        self.image = Some(image);
                        UniStep::Poll(r)
                    },
                }
            },
        }
    }

    /// Go on, while the pool has the stream, by how far that has got: with the
    /// stream, once the operation was completed. Returns `None` in that case,
    /// and the caller goes on with the outcome of the operation.
    pub fn dispatch_polled<B: OutputBuf<M>>(
        &mut self,
        poll: WaitPoll,
        image: Option<AsyncBodyImage<F, M, S, LenientArbiter>>,
    ) -> (r: Option<UniStep<B, F, M, S>>)
        requires
            old(self).wf(),
            old(self).delegated() is Dispatch,
            poll is Ready ==> image is Some && image->0.wf() && image->0@.body.len() == old(self).size(),
        ensures
            final(self).wf(),
            final(self).size() == old(self).size(),
            match poll {
                WaitPoll::Pending => *final(self) == *old(self) && r == Some(
                    UniStep::<B, F, M, S>::Poll(StreamPoll::Pending),
                ),
                WaitPoll::Canceled => *final(self) == *old(self) && r == Some(
                    UniStep::<B, F, M, S>::Canceled,
                ),
                WaitPoll::Ready => r is None && final(self).delegated() is Nobody && final(self).stream()
                    == image,
            },
    {
        match poll {
            WaitPoll::Pending => Some(UniStep::Poll(StreamPoll::Pending)),
            WaitPoll::Canceled => Some(UniStep::Canceled),
            WaitPoll::Ready => {
                self.delegate = Delegate::Nobody;
                self.image = image;
                None
            },
        }
    }

    /// Report the bytes that were read of the range that a poll asked for, or
    /// `None` if the read was interrupted. Then the stream is to be polled
    /// again, and blocks anew.
    pub fn read_done<B: OutputBuf<M>>(&mut self, data: Option<Bytes>) -> (r: UniStep<B, F, M, S>)
        requires
            old(self).wf(),
            old(self).delegated() is Nobody,
            old(self).stream()->0@.source is File,
            data is Some ==> bytes_content(data->0).len() <= old(self).stream()->0@.next_range().len,
        ensures
            final(self).wf(),
            final(self).size() == old(self).size(),
            final(self).delegated() is Nobody,
            final(self).stream()->0.policy() == old(self).stream()->0.policy(),
            match data {
                None => r is Again && *final(self) == *old(self),
                Some(b) => if bytes_content(b).len() == 0 {
                    r == UniStep::<B, F, M, S>::Poll(StreamPoll::End) && final(self).stream()->0@ == old(self).stream()->0@
                } else {
                    &&& r is Poll
                    &&& r->Poll_0 is Item
                    &&& r->Poll_0->Item_0.bytes() == bytes_content(b)
                    &&& final(self).stream()->0@ == read_from_file(
                        old(self).stream()->0@,
                        bytes_content(b),
                    )
                },
            },
    {
        if data.is_none() {
            return UniStep::Again;
        }
        match self.image.take() {
            None => UniStep::Canceled,
            Some(mut image) => {
                let r = image.read_done(data);
                self.image = Some(image);
                UniStep::Poll(r)
            },
        }
    }

    /// As [`AsyncBodyImage::mapped`].
    pub fn mapped<B: OutputBuf<M>>(&mut self, mmap: M) -> (r: Option<B>)
        requires
            old(self).wf(),
            old(self).delegated() is Nobody,
            old(self).stream()->0@.source == Source::<F, M>::MemMap(None),
            mmap.bytes().len() <= old(self).stream()->0@.avail(),
        ensures
            final(self).wf(),
            final(self).size() == old(self).size(),
            final(self).delegated() is Nobody,
            final(self).stream()->0.policy() == old(self).stream()->0.policy(),
            r is Some,
            r->0.bytes() == mmap.bytes(),
            final(self).stream()->0@ == (StreamView {
                emitted: old(self).stream()->0@.emitted + mmap.bytes(),
                ..old(self).stream()->0@
            }),
    {
        match self.image.take() {
            None => None,
            Some(mut image) => {
                let b = image.mapped(mmap);
                self.image = Some(image);
                Some(b)
            },
        }
    }

    /// The exact number of bytes of the body.
    pub fn size_hint(&self) -> (n: u64)
        ensures
            n == self.size(),
    {
        self.len
    }

    /// Whether all of the bytes were given. This is not so while the pool has
    /// the stream.
    pub fn is_end_stream(&self) -> (b: bool)
        requires
            self.wf(),
        ensures
            b == (self.stream() matches Some(i) && i@.avail() == 0),
    {
        match &self.image {
            Some(image) => image.is_end_stream(),
            None => false,
        }
    }
}

/// What a [`UniBodySink`] asks of the caller.
pub enum UniFlush<B: InputBuf, F, S: Copy> {
    /// What the sink itself asks.
    Flush(FlushStep<B>),
    /// Obtain a permit, poll it, and report by [`UniBodySink::permit_polled`].
    Ask,
    /// Have the sink flushed by the pool: it is allowed to block once. Then hand
    /// it back by [`UniBodySink::dispatch_polled`].
    Dispatch(AsyncBodySink<B, F, S, StatefulArbiter>),
    /// The permit or the operation was canceled, which is a failure.
    Canceled,
}

/// A sink that has its blocking operations run by the current thread, once a
/// permit was obtained, or else by a pool of threads where the current thread
/// may not block at all.
pub struct UniBodySink<B: InputBuf, F, S: Copy> {
    sink: Option<AsyncBodySink<B, F, S, StatefulArbiter>>,
    delegate: Delegate,
}

impl<B: InputBuf, F, S: Copy> UniBodySink<B, F, S> {
    /// The sink is here unless the pool has it, and a permit is only waited for
    /// where there is something to block for.
    pub closed spec fn wf(&self) -> bool {
        &&& self.sink is None == self.delegate is Dispatch
        &&& self.sink matches Some(s) ==> {
            &&& s.arbiter().state == (if self.delegate is Permit {
                Blocking::Pending
            } else {
                Blocking::Void
            })
            &&& self.delegate is Permit ==> must_block(s)
        }
    }

    /// The sink itself, unless the pool has it.
    pub closed spec fn inner(&self) -> Option<AsyncBodySink<B, F, S, StatefulArbiter>> {
        self.sink
    }

    /// Whom the blocking operation is delegated to.
    pub closed spec fn delegated(&self) -> Delegate {
        self.delegate
    }

    /// A sink to a body.
    pub fn new(body: BodySink<F>, tune: FutioTunables<S>) -> (r: Self)
        ensures
            r.wf(),
            r.delegated() is Nobody,
            r.inner() is Some,
            r.inner()->0.inner() == body,
            r.inner()->0.limits() == tune.image,
            r.inner()->0.pending() is None,
    {
        let arbiter = StatefulArbiter { state: Blocking::Void };
        UniBodySink {
            sink: Some(AsyncBodySink::with_arbiter(body, tune, arbiter)),
            delegate: Delegate::Nobody,
        }
    }

    /// The body that was written to, unless the pool has it.
    pub fn into_inner(self) -> (r: Option<BodySink<F>>)
        ensures
            r == (match self.inner() {
                Some(s) => Some(s.inner()),
                None => None,
            }),
    {
        match self.sink {
            Some(s) => Some(s.into_inner()),
            None => None,
        }
    }

    /// Whom the blocking operation is delegated to.
    pub fn delegate(&self) -> (r: Delegate)
        ensures
            r == self.delegated(),
    {
        self.delegate
    }

    /// Take an item, while none is pending and nothing is delegated.
    pub fn start_send(&mut self, buf: B)
        requires
            old(self).wf(),
            old(self).delegated() is Nobody,
            old(self).inner()->0.pending() is None,
        ensures
            final(self).wf(),
            final(self).delegated() is Nobody,
            final(self).inner()->0.pending() == Some(buf),
            final(self).inner()->0.inner() == old(self).inner()->0.inner(),
            final(self).inner()->0.limits() == old(self).inner()->0.limits(),
    {
        if let Some(mut s) = self.sink.take() {
            s.send(buf);
            self.sink = Some(s);
        }
    }

    /// Try to send the pending item, while nothing is delegated. Where blocking
    /// is needed a permit is asked for, or on a reactor thread, which may not
    /// block, the sink is given away.
    pub fn poll_send(&mut self, reactor: bool) -> (r: UniFlush<B, F, S>)
        requires
            old(self).wf(),
            old(self).delegated() is Nobody,
            is_countable(old(self).inner()->0),
        ensures
            final(self).wf(),
            ({
                let sink = old(self).inner()->0;
                if must_block(sink) {
                    if reactor {
                        &&& r is Dispatch
                        &&& final(self).delegated() is Dispatch
                        &&& r->Dispatch_0.inner() == sink.inner()
                        &&& r->Dispatch_0.limits() == sink.limits()
                        &&& r->Dispatch_0.pending() == sink.pending()
                        &&& r->Dispatch_0.arbiter().state is Once
                    } else {
                        &&& r is Ask
                        &&& final(self).delegated() is Permit
                        &&& final(self).inner()->0.inner() == sink.inner()
                        &&& final(self).inner()->0.limits() == sink.limits()
                        &&& final(self).inner()->0.pending() == sink.pending()
                    }
                } else {
                    &&& r is Flush
                    &&& final(self).delegated() is Nobody
                    &&& final(self).inner()->0.limits() == sink.limits()
                    &&& final(self).inner()->0.pending() is None
                    &&& match sink.pending() {
                        None => r->Flush_0 is Ready && final(self).inner()->0.inner() == sink.inner(),
                        Some(item) => is_sent(
                            sink.inner(),
                            final(self).inner()->0.inner(),
                            sink.limits(),
                            item,
                            false,
                            r->Flush_0,
                        ),
                    }
                }
            }),
    {
        match self.sink.take() {
            None => UniFlush::Canceled,
            Some(mut sink) => {
                let r = sink.poll_flush_impl();
                match r {
                    FlushStep::Pending => {
                        if reactor {
                            sink.permit_once();
                            self.delegate = Delegate::Dispatch;
                            UniFlush::Dispatch(sink)
                        } else {
                            self.delegate = Delegate::Permit;
                            self.sink = Some(sink);
                            UniFlush::Ask
                        }
                    },
                    r => {
                        self.sink = Some(sink);
                        UniFlush::Flush(r)
                    },
                }
            },
        }
    }

    /// Go on, while a permit is waited for, by how far it has got. Once it was
    /// granted the file is to be written.
    pub fn permit_polled(&mut self, permit: WaitPoll) -> (r: UniFlush<B, F, S>)
        requires
            old(self).wf(),
            old(self).delegated() is Permit,
            is_countable(old(self).inner()->0),
        ensures
            final(self).wf(),
            match permit {
                WaitPoll::Pending => *final(self) == *old(self) && r == UniFlush::<B, F, S>::Flush(
                    FlushStep::Pending,
                ),
                WaitPoll::Canceled => *final(self) == *old(self) && r is Canceled,
                WaitPoll::Ready => {
                    &&& final(self).delegated() is Nobody
                    &&& final(self).inner()->0.limits() == old(self).inner()->0.limits()
                    &&& final(self).inner()->0.pending() is None
                    &&& r is Flush
                    &&& !(r->Flush_0 is Pending)
                    &&& is_sent(
                        old(self).inner()->0.inner(),
                        final(self).inner()->0.inner(),
                        old(self).inner()->0.limits(),
                        old(self).inner()->0.pending()->0,
                        true,
                        r->Flush_0,
                    )
                },
            },
    {
        match permit {
            WaitPoll::Pending => UniFlush::Flush(FlushStep::Pending),
            WaitPoll::Canceled => UniFlush::Canceled,
            WaitPoll::Ready => {
                self.delegate = Delegate::Nobody;
                match self.sink.take() {
                    None => UniFlush::Canceled,
                    Some(mut sink) => {
                        sink.permit_once();
                        let r = sink.poll_flush_impl();
                        self.sink = Some(sink);
                        UniFlush::Flush(r)
                    },
                }
            },
        }
    }

    /// Go on, while the pool has the sink, by how far that has got: with the
    /// sink, once the operation was completed. Returns `None` in that case, and
    /// the caller goes on with the outcome of the operation.
    pub fn dispatch_polled(
        &mut self,
        poll: WaitPoll,
        sink: Option<AsyncBodySink<B, F, S, StatefulArbiter>>,
    ) -> (r: Option<UniFlush<B, F, S>>)
        requires
            old(self).wf(),
            old(self).delegated() is Dispatch,
            poll is Ready ==> sink is Some && sink->0.arbiter().state is Void,
        ensures
            final(self).wf(),
            match poll {
                WaitPoll::Pending => *final(self) == *old(self) && r == Some(
                    UniFlush::<B, F, S>::Flush(FlushStep::Pending),
                ),
                WaitPoll::Canceled => *final(self) == *old(self) && r == Some(
                    UniFlush::<B, F, S>::Canceled,
                ),
                WaitPoll::Ready => r is None && final(self).delegated() is Nobody && final(self).inner()
                    == sink,
            },
    {
        match poll {
            WaitPoll::Pending => Some(UniFlush::Flush(FlushStep::Pending)),
            WaitPoll::Canceled => Some(UniFlush::Canceled),
            WaitPoll::Ready => {
                self.delegate = Delegate::Nobody;
                self.sink = sink;
                None
            },
        }
    }

    /// As [`AsyncBodySink::opened`].
    pub fn opened(&mut self, back: WriteBack, file: F)
        requires
            old(self).wf(),
            old(self).delegated() is Nobody,
        ensures
            final(self).wf(),
            final(self).delegated() is Nobody,
            !final(self).inner()->0.inner().in_ram(),
            final(self).inner()->0.inner().the_file() == file,
            final(self).inner()->0.inner()@ == back@,
            final(self).inner()->0.limits() == old(self).inner()->0.limits(),
            final(self).inner()->0.pending() == old(self).inner()->0.pending(),
    {
        if let Some(mut s) = self.sink.take() {
            s.opened(back, file);
            self.sink = Some(s);
        }
    }

    /// As [`AsyncBodySink::file`].
    pub fn file(&self) -> (r: Option<&F>)
        ensures
            r is Some == (self.inner() matches Some(s) && !s.inner().in_ram()),
            r is Some ==> *r->0 == self.inner()->0.inner().the_file(),
    {
        match &self.sink {
            Some(s) => s.file(),
            None => None,
        }
    }

    /// As [`AsyncBodySink::written`].
    pub fn written(&mut self, buf: &B)
        requires
            old(self).wf(),
            old(self).delegated() is Nobody,
            !old(self).inner()->0.inner().in_ram(),
            old(self).inner()->0.inner()@.len() + buf.bytes().len() <= u64::MAX,
        ensures
            final(self).wf(),
            final(self).delegated() is Nobody,
            !final(self).inner()->0.inner().in_ram(),
            final(self).inner()->0.inner().the_file() == old(self).inner()->0.inner().the_file(),
            final(self).inner()->0.inner()@ == old(self).inner()->0.inner()@ + buf.bytes(),
            final(self).inner()->0.limits() == old(self).inner()->0.limits(),
            final(self).inner()->0.pending() == old(self).inner()->0.pending(),
    {
        if let Some(mut s) = self.sink.take() {
            s.written(buf);
            self.sink = Some(s);
        }
    }
}

/// The outcome of an operation that was run on a backup thread of the executor.
pub enum Blocked<T, E> {
    /// It was run, and succeeded.
    Done(T),
    /// It was run, and interrupted.
    Interrupted,
    /// It was run, and failed.
    Failed(E),
    /// No backup thread is available yet.
    NotReady,
    /// The executor has no backup threads.
    Unsupported,
}

/// The failure of an operation that was to be run on a backup thread.
pub enum UnblockError<E> {
    /// The operation failed.
    Failed(E),
    /// The executor has no backup threads.
    Unsupported,
}

/// What the outcome of an operation comes to: `None` if it is to be tried again
/// when polled again.
pub fn unblock<T, E>(outcome: Blocked<T, E>) -> (r: Result<Option<T>, UnblockError<E>>)
    ensures
        r == (match outcome {
            Blocked::Done(v) => Ok::<Option<T>, UnblockError<E>>(Some(v)),
            Blocked::Interrupted => Ok(None),
            Blocked::NotReady => Ok(None),
            Blocked::Failed(e) => Err(UnblockError::Failed(e)),
            Blocked::Unsupported => Err(UnblockError::Unsupported),
        }),
{
    match outcome {
        Blocked::Done(v) => Ok(Some(v)),
        Blocked::Interrupted => Ok(None),
        Blocked::NotReady => Ok(None),
        Blocked::Failed(e) => Err(UnblockError::Failed(e)),
        Blocked::Unsupported => Err(UnblockError::Unsupported),
    }
}

/// What the outcome of a blocking read makes of a stream.
pub enum UnblockedPoll<B, M, E> {
    /// What a poll of the stream itself asks.
    Poll(StreamPoll<B, M>),
    /// The stream failed.
    Failed(UnblockError<E>),
}

/// A stream that has its blocking operations run on a backup thread of the
/// executor.
pub struct AsyncUniBody<F, M: Region, S: Copy> {
    image: AsyncBodyImage<F, M, S, LenientArbiter>,
}

impl<F, M: Region, S: Copy> AsyncUniBody<F, M, S> {
    /// The stream itself is well formed.
    pub closed spec fn wf(&self) -> bool {
        self.image.wf()
    }

    /// The stream itself.
    pub closed spec fn stream(&self) -> AsyncBodyImage<F, M, S, LenientArbiter> {
        self.image
    }

    /// A stream of a body.
    pub fn new(body: BodyImage<F, M>, tune: FutioTunables<S>) -> (r: Self)
        requires
            body.in_map() ==> body.the_map().bytes().len() == body@.len(),
        ensures
            r.wf(),
            r.stream()@.body == body@,
            r.stream()@.emitted == Seq::<u8>::empty(),
            r.stream()@.buffer_size == tune.image.buffer_size_fs,
            is_source(body, r.stream()@.source),
    {
        AsyncUniBody { image: AsyncBodyImage::new(body, tune) }
    }

    /// Poll for the next item. A range of a file is to be read, and a map
    /// touched, on a backup thread.
    pub fn poll<B: OutputBuf<M>>(&mut self) -> (r: StreamPoll<B, M>)
        requires
            old(self).wf(),
        ensures
            final(self).wf(),
            is_polled(old(self).stream(), final(self).stream(), r),
            !(r is Pending),
            r is Advise ==> r->Advise_0.bytes().len() == final(self).stream()@.avail(),
    {
        self.image.poll_impl()
    }

    /// Report the outcome of reading the range that a poll asked for. Where it
    /// was interrupted, or could not be run yet, the stream is to be polled
    /// again, and nothing has changed.
    pub fn read_blocked<B: OutputBuf<M>, E>(&mut self, outcome: Blocked<Bytes, E>) -> (r: UnblockedPoll<
        B,
        M,
        E,
    >)
        requires
            old(self).wf(),
            old(self).stream()@.source is File,
            outcome is Done ==> bytes_content(outcome->Done_0).len() <= old(self).stream()@.next_range().len,
        ensures
            final(self).wf(),
            match outcome {
                Blocked::Done(b) => if bytes_content(b).len() == 0 {
                    r == UnblockedPoll::<B, M, E>::Poll(StreamPoll::End) && final(self).stream()@ == old(self).stream()@
                } else {
                    &&& r is Poll
                    &&& r->Poll_0 is Item
                    &&& r->Poll_0->Item_0.bytes() == bytes_content(b)
                    &&& final(self).stream()@ == read_from_file(old(self).stream()@, bytes_content(b))
                },
                Blocked::Interrupted => r == UnblockedPoll::<B, M, E>::Poll(StreamPoll::Pending)
                    && *final(self) == *old(self),
                Blocked::NotReady => r == UnblockedPoll::<B, M, E>::Poll(StreamPoll::Pending)
                    && *final(self) == *old(self),
                Blocked::Failed(e) => r == UnblockedPoll::<B, M, E>::Failed(UnblockError::Failed(e))
                    && *final(self) == *old(self),
                Blocked::Unsupported => r == UnblockedPoll::<B, M, E>::Failed(UnblockError::Unsupported)
                    && *final(self) == *old(self),
            },
    {
        match unblock(outcome) {
            Ok(None) => UnblockedPoll::Poll(StreamPoll::Pending),
            Ok(Some(b)) => UnblockedPoll::Poll(self.image.read_done(Some(b))),
            Err(e) => UnblockedPoll::Failed(e),
        }
    }

    /// Report the outcome of touching a memory map that a poll gave, with the
    /// map. The map is the item unless that has failed: it can be used even if
    /// it was not touched.
    pub fn map_blocked<B: OutputBuf<M>, E>(&mut self, mmap: M, outcome: Blocked<(), E>) -> (r: UnblockedPoll<
        B,
        M,
        E,
    >)
        requires
            old(self).wf(),
            old(self).stream()@.source == Source::<F, M>::MemMap(None),
            mmap.bytes().len() <= old(self).stream()@.avail(),
        ensures
            final(self).wf(),
            match outcome {
                Blocked::Failed(e) => r == UnblockedPoll::<B, M, E>::Failed(UnblockError::Failed(e))
                    && *final(self) == *old(self),
                Blocked::Unsupported => r == UnblockedPoll::<B, M, E>::Failed(UnblockError::Unsupported)
                    && *final(self) == *old(self),
                _ => {
                    &&& r is Poll
                    &&& r->Poll_0 is Item
                    &&& r->Poll_0->Item_0.bytes() == mmap.bytes()
                    &&& final(self).stream()@ == (StreamView {
                        emitted: old(self).stream()@.emitted + mmap.bytes(),
                        ..old(self).stream()@
                    })
                },
            },
    {
        match unblock(outcome) {
            Ok(_) => UnblockedPoll::Poll(StreamPoll::Item(self.image.mapped(mmap))),
            Err(e) => UnblockedPoll::Failed(e),
        }
    }

    /// The exact number of bytes of the body.
    pub fn content_length(&self) -> (n: u64)
        requires
            self.wf(),
        ensures
            n == self.stream()@.body.len(),
    {
        self.image.size_hint()
    }

    /// Whether all of the bytes were given.
    pub fn is_end_stream(&self) -> (b: bool)
        requires
            self.wf(),
        ensures
            b == (self.stream()@.avail() == 0),
    {
        self.image.is_end_stream()
    }
}

/// A body that is a memory map, which it gives once and as a whole, without a
/// copy.
pub struct AsyncMemMapBody<M: Region> {
    buf: Option<MemMapBuf<M>>,
}

impl<M: Region> AsyncMemMapBody<M> {
    /// The bytes that are still to be given, or `None` if there is no map, or no
    /// longer.
    pub closed spec fn to_come(&self) -> Option<Seq<u8>> {
        match self.buf {
            Some(b) => Some(b@),
            None => None,
        }
    }

    /// All of a body, which must be in a memory map.
    pub fn new<F>(body: BodyImage<F, M>) -> (r: AsyncMemMapBody<M>)
        requires
            body.in_map(),
        ensures
            r.to_come() == Some(body.the_map().bytes()),
    {
        proof {
            body.lemma_one_state();
        }
        match body.explode() {
            ExplodedImage::MemMap(m) => AsyncMemMapBody { buf: Some(MemMapBuf::new(m)) },
            _ => AsyncMemMapBody::empty(),
        }
    }

    /// A body without a map.
    pub fn empty() -> (r: AsyncMemMapBody<M>)
        ensures
            r.to_come() is None,
    {
        AsyncMemMapBody { buf: None }
    }

    /// Give the map, for the caller to advise that it is about to be read in
    /// sequence, and to touch it where blocking is acceptable.
    pub fn poll_data(&mut self) -> (r: Option<MemMapBuf<M>>)
        ensures
            r is Some == old(self).to_come() is Some,
            r is Some ==> Some(r->0@) == old(self).to_come(),
            final(self).to_come() is None,
    {
        self.buf.take()
    }

    /// The number of bytes, until the map is given.
    pub fn content_length(&self) -> (r: Option<u64>)
        ensures
            r == (match self.to_come() {
                Some(s) => Some(s.len() as u64),
                None => None,
            }),
    {
        match &self.buf {
            Some(b) => Some(b.remaining() as u64),
            None => None,
        }
    }

    /// Whether there is no map to be given.
    pub fn is_end_stream(&self) -> (b: bool)
        ensures
            b == (self.to_come() is None),
    {
        self.buf.is_none()
    }
}

/// Whether two polls of streams gave the same: the end, nothing yet, an item of the
/// same bytes, the same range, or the same map.
pub open spec fn same_poll<B: OutputBuf<M>, M: Region>(a: StreamPoll<B, M>, b: StreamPoll<B, M>) -> bool {
    match a {
        StreamPoll::End => b is End,
        StreamPoll::Pending => b is Pending,
        StreamPoll::Item(x) => b matches StreamPoll::Item(y) && x.bytes() == y.bytes(),
        StreamPoll::Read(x) => b matches StreamPoll::Read(y) && x == y,
        StreamPoll::Advise(x) => b matches StreamPoll::Advise(y) && x == y,
    }
}

/// A stream that delegates starts with nobody to delegate to, and streams the body
/// as one that may block does. Its length is that of the body.
pub proof fn law_new_uni_streams<F, M: Region, S: Copy>(
    body: BodyImage<F, M>,
    tune: FutioTunables<S>,
    a: AsyncBodyImage<F, M, S, LenientArbiter>,
    b: UniBodyImage<F, M, S>,
    c: AsyncUniBody<F, M, S>,
    delegate: Delegate,
    n: u64,
    m: u64,
)
    requires
        body.in_map() ==> body.the_map().bytes().len() == body@.len(),
        call_ensures(AsyncBodyImage::<F, M, S, LenientArbiter>::new, (body, tune), a),
        call_ensures(UniBodyImage::<F, M, S>::new, (body, tune), b),
        call_ensures(AsyncUniBody::<F, M, S>::new, (body, tune), c),
        call_ensures(UniBodyImage::<F, M, S>::delegate, (&b,), delegate),
        call_ensures(UniBodyImage::<F, M, S>::size_hint, (&b,), n),
        call_ensures(AsyncUniBody::<F, M, S>::content_length, (&c,), m),
    ensures
        delegate is Nobody,
        n == body@.len(),
        m == body@.len(),
        b.stream() is Some,
        b.stream()->0@ == a@,
        c.stream()@ == a@,
        b.stream()->0.policy() == tune.blocking_policy,
        a@.body == body@ && a@.emitted == Seq::<u8>::empty(),
{
    body.lemma_one_state();
}

/// A stream that delegates does so exactly if bytes are to come, and not from RAM:
/// to a pool if there is one, as it is, and otherwise by a permit of its semaphore.
/// Else it is polled as one that may block.
pub proof fn law_uni_stream_is_polled<B: OutputBuf<M>, F, M: Region, S: Copy>(
    s: &mut UniBodyImage<F, M, S>,
    t: &mut AsyncBodyImage<F, M, S, LenientArbiter>,
    has_pool: bool,
    r: UniStep<B, F, M, S>,
    q: StreamPoll<B, M>,
    delegate: Delegate,
    n: u64,
    m: u64,
)
    requires
        old(s).wf(),
        old(s).delegated() is Nobody,
        *old(t) == old(s).stream()->0,
        call_ensures(UniBodyImage::<F, M, S>::size_hint, (&*old(s),), n),
        call_ensures(UniBodyImage::<F, M, S>::poll_next::<B>, (s, has_pool), r),
        call_ensures(AsyncBodyImage::<F, M, S, LenientArbiter>::poll_impl::<B>, (t,), q),
        call_ensures(UniBodyImage::<F, M, S>::delegate, (&*final(s),), delegate),
        call_ensures(UniBodyImage::<F, M, S>::size_hint, (&*final(s),), m),
    ensures
        ({
            let v = old(t)@;
            let blocks = v.body.len() != v.emitted.len() && !(v.source is Ram);
            &&& m == n
            &&& delegate is Nobody <==> !blocks
            &&& delegate is Dispatch <==> blocks && has_pool
            &&& blocks && has_pool ==> (r matches UniStep::Dispatch(image) && image == *old(t))
            &&& blocks && !has_pool && old(t).policy() is Permit ==> (r matches UniStep::Ask(p) && old(t).policy()
                == BlockingPolicy::Permit(p))
            &&& blocks && !has_pool ==> final(s).stream() == old(s).stream()
            &&& !blocks ==> (r matches UniStep::Poll(p) && same_poll(p, q)) && final(s).stream() is Some
                && final(s).stream()->0@ == final(t)@
        }),
{
}

/// Once the permit was granted, a stream that delegates does what one that may block
/// does. Until then nothing changes, and never if it was canceled.
pub proof fn law_uni_stream_has_permit<B: OutputBuf<M>, F, M: Region, S: Copy>(
    s: &mut UniBodyImage<F, M, S>,
    t: &mut AsyncBodyImage<F, M, S, LenientArbiter>,
    permit: WaitPoll,
    r: UniStep<B, F, M, S>,
    q: StreamPoll<B, M>,
)
    requires
        old(s).wf(),
        old(s).delegated() is Permit,
        *old(t) == old(s).stream()->0,
        call_ensures(UniBodyImage::<F, M, S>::permit_polled::<B>, (s, permit), r),
        call_ensures(AsyncBodyImage::<F, M, S, LenientArbiter>::poll_impl::<B>, (t,), q),
    ensures
        permit is Pending ==> *final(s) == *old(s) && (r matches UniStep::Poll(p) && p is Pending),
        permit is Canceled ==> *final(s) == *old(s) && r is Canceled,
        permit is Ready ==> {
            &&& final(s).delegated() is Nobody
            &&& final(s).stream() is Some
            &&& final(s).stream()->0@ == final(t)@
            &&& (r matches UniStep::Poll(p) && same_poll(p, q) && !(p is Pending))
        },
{
}

/// A stream that a pool has comes back as it is handed over, and is waited for until
/// then. It has not ended meanwhile.
pub proof fn law_uni_stream_is_back<B: OutputBuf<M>, F, M: Region, S: Copy>(
    s: &mut UniBodyImage<F, M, S>,
    poll: WaitPoll,
    image: Option<AsyncBodyImage<F, M, S, LenientArbiter>>,
    r: Option<UniStep<B, F, M, S>>,
    ended: bool,
    end: bool,
    delegate: Delegate,
)
    requires
        old(s).wf(),
        old(s).delegated() is Dispatch,
        poll is Ready ==> image is Some && image->0.wf() && image->0@.body.len() == old(s).size(),
        call_ensures(UniBodyImage::<F, M, S>::is_end_stream, (&*old(s),), ended),
        call_ensures(UniBodyImage::<F, M, S>::dispatch_polled::<B>, (s, poll, image), r),
        call_ensures(UniBodyImage::<F, M, S>::is_end_stream, (&*final(s),), end),
        call_ensures(UniBodyImage::<F, M, S>::delegate, (&*final(s),), delegate),
    ensures
        !ended,
        poll is Pending ==> *final(s) == *old(s) && (r matches Some(UniStep::Poll(p)) && p is Pending),
        poll is Canceled ==> *final(s) == *old(s) && (r matches Some(c) && c is Canceled),
        poll is Ready ==> {
            &&& r is None
            &&& delegate is Nobody
            &&& final(s).stream() == image
            &&& final(s).size() == image->0@.body.len()
            &&& end <==> image->0@.body.len() == image->0@.emitted.len()
        },
{
}

/// A stream that delegates takes what was read or mapped as any stream. After an
/// interruption it is to be polled again.
pub proof fn law_uni_stream_takes<B: OutputBuf<M>, F, M: Region, S: Copy>(
    s: &mut UniBodyImage<F, M, S>,
    t: &mut AsyncBodyImage<F, M, S, LenientArbiter>,
    data: Option<Bytes>,
    r: UniStep<B, F, M, S>,
    q: StreamPoll<B, M>,
    u: &mut UniBodyImage<F, M, S>,
    mmap: M,
    item: Option<B>,
)
    requires
        *old(t) == old(s).stream()->0,
        call_ensures(UniBodyImage::<F, M, S>::read_done::<B>, (s, data), r),
        call_ensures(AsyncBodyImage::<F, M, S, LenientArbiter>::read_done::<B>, (t, data), q),
        call_ensures(UniBodyImage::<F, M, S>::mapped::<B>, (u, mmap), item),
    ensures
        data is None ==> r is Again && *final(s) == *old(s),
        data is Some ==> (r matches UniStep::Poll(p) && same_poll(p, q)) && final(s).stream()->0@ == final(t)@,
        data matches Some(b) ==> bytes_content(b).len() > 0
            ==> final(t)@.emitted == old(t)@.emitted + bytes_content(b),
        item matches Some(x) && x.bytes() == mmap.bytes(),
        final(u).stream()->0@.emitted == old(u).stream()->0@.emitted + mmap.bytes(),
        final(u).stream()->0@.body == old(u).stream()->0@.body,
        final(u).size() == old(u).size(),
{
}

/// A sink that delegates does so exactly if its item can only be written to a file:
/// on a reactor thread it is given away, with the item and allowed to block once, and
/// otherwise it asks for a permit and keeps the item. Any other item is sent as by
/// any sink.
pub proof fn law_uni_sink_is_polled<B: InputBuf, F, S: Copy>(
    s: &mut UniBodySink<B, F, S>,
    reactor: bool,
    r: UniFlush<B, F, S>,
)
    requires
        old(s).wf(),
        old(s).delegated() is Nobody,
        (old(s).inner()->0.pending() matches Some(item)
            ==> old(s).inner()->0.inner()@.len() + item.bytes().len() <= u64::MAX),
        call_ensures(UniBodySink::<B, F, S>::poll_send, (s, reactor), r),
    ensures
        ({
            let before = old(s).inner()->0.inner();
            let tune = old(s).inner()->0.limits();
            let item = old(s).inner()->0.pending()->0;
            let some = old(s).inner()->0.pending() is Some;
            let len = item.bytes().len();
            let total = before@.len() + len;
            let to_file = len > 0 && total <= tune.max_body && (!before.in_ram() || total > tune.max_body_ram);
            let blocks = some && to_file;
            let step = r->Flush_0;
            let after = final(s).inner()->0.inner();
            &&& !blocks ==> r is Flush && final(s).delegated() is Nobody
                && final(s).inner()->0.pending() is None && final(s).inner()->0.limits() == tune
            &&& !some ==> step is Ready && after == before
            &&& some && len == 0 ==> step is Ready && after == before
            &&& some && len > 0 && total > tune.max_body
                ==> (step matches FlushStep::Failed(FutioError::Body(BodyError::BodyTooLong(n))) && n
                == total && after == before)
            &&& some && len > 0 && total <= tune.max_body && before.in_ram()
                && total <= tune.max_body_ram
                ==> step is Ready && after.in_ram() && after@ == before@ + item.bytes()
            &&& blocks && reactor ==> final(s).delegated() is Dispatch
                && (r matches UniFlush::Dispatch(d) && d.inner() == before && d.limits() == tune
                && d.pending() == Some(item) && d.arbiter().state is Once)
            &&& blocks && !reactor ==> r is Ask && final(s).delegated() is Permit && after == before
                && final(s).inner()->0.pending() == Some(item) && final(s).inner()->0.limits() == tune
        }),
{
}

/// Once the permit was granted the item is to be written: to a new file after all that
/// is in RAM, or to the end of the file. Until then nothing changes, and never if it
/// was canceled.
pub proof fn law_uni_sink_has_permit<B: InputBuf, F, S: Copy>(
    s: &mut UniBodySink<B, F, S>,
    permit: WaitPoll,
    r: UniFlush<B, F, S>,
)
    requires
        old(s).wf(),
        old(s).delegated() is Permit,
        (old(s).inner()->0.pending() matches Some(item)
            ==> old(s).inner()->0.inner()@.len() + item.bytes().len() <= u64::MAX),
        call_ensures(UniBodySink::<B, F, S>::permit_polled, (s, permit), r),
    ensures
        ({
            let before = old(s).inner()->0.inner();
            let tune = old(s).inner()->0.limits();
            let item = old(s).inner()->0.pending()->0;
            let after = final(s).inner()->0.inner();
            let step = r->Flush_0;
            let len = item.bytes().len();
            let total = before@.len() + len;
            let to_file = len > 0 && total <= tune.max_body && (!before.in_ram() || total > tune.max_body_ram);
            &&& permit is Pending ==> *final(s) == *old(s) && (r matches UniFlush::Flush(p) && p is Pending)
            &&& permit is Canceled ==> *final(s) == *old(s) && r is Canceled
            &&& permit is Ready ==> r is Flush && final(s).delegated() is Nobody
                && final(s).inner()->0.pending() is None && final(s).inner()->0.limits() == tune
            &&& permit is Ready && to_file && before.in_ram()
                ==> (step matches FlushStep::Open(back, b) && back@ == before@ && b == item
                && after.in_ram() && after@ == Seq::<u8>::empty())
            &&& permit is Ready && to_file && !before.in_ram()
                ==> (step matches FlushStep::Append(b) && b == item && after == before)
        }),
{
}

/// A sink that a pool has comes back as it is handed over, and is waited for until
/// then. Its body cannot be had meanwhile.
pub proof fn law_uni_sink_is_back<B: InputBuf, F, S: Copy>(
    s: &mut UniBodySink<B, F, S>,
    poll: WaitPoll,
    sink: Option<AsyncBodySink<B, F, S, StatefulArbiter>>,
    r: Option<UniFlush<B, F, S>>,
    body: Option<BodySink<F>>,
    delegate: Delegate,
)
    requires
        old(s).wf(),
        old(s).delegated() is Dispatch,
        call_ensures(UniBodySink::<B, F, S>::into_inner, (*old(s),), body),
        call_ensures(UniBodySink::<B, F, S>::dispatch_polled, (s, poll, sink), r),
        call_ensures(UniBodySink::<B, F, S>::delegate, (&*final(s),), delegate),
    ensures
        body is None,
        poll is Pending ==> *final(s) == *old(s) && (r matches Some(UniFlush::Flush(p)) && p is Pending),
        poll is Canceled ==> *final(s) == *old(s) && (r matches Some(c) && c is Canceled),
        poll is Ready ==> r is None && delegate is Nobody && final(s).inner() == sink,
{
}

/// A new sink that delegates is to the body that it was made with, and gives it back.
/// It takes an item, a file and what was written to that as any sink.
pub proof fn law_new_uni_sink<B: InputBuf, F, S: Copy>(
    body: BodySink<F>,
    tune: FutioTunables<S>,
    a: UniBodySink<B, F, S>,
    delegate: Delegate,
    back: Option<BodySink<F>>,
    s: &mut UniBodySink<B, F, S>,
    t: &mut UniBodySink<B, F, S>,
    u: &mut UniBodySink<B, F, S>,
    buf: B,
    bufs: WriteBack,
    file: F,
    handle: Option<&F>,
)
    requires
        final(t).inner() is Some,
        call_ensures(UniBodySink::<B, F, S>::new, (body, tune), a),
        call_ensures(UniBodySink::<B, F, S>::delegate, (&a,), delegate),
        call_ensures(UniBodySink::<B, F, S>::into_inner, (a,), back),
        call_ensures(UniBodySink::<B, F, S>::start_send, (s, buf), ()),
        call_ensures(UniBodySink::<B, F, S>::opened, (t, bufs, file), ()),
        call_ensures(UniBodySink::<B, F, S>::file, (&*final(t),), handle),
        call_ensures(UniBodySink::<B, F, S>::written, (u, &buf), ()),
    ensures
        delegate is Nobody,
        back == Some(body),
        a.inner()->0.limits() == tune.image && a.inner()->0.pending() is None,
        final(s).inner()->0.pending() == Some(buf),
        final(s).inner()->0.inner() == old(s).inner()->0.inner(),
        final(s).inner()->0.limits() == old(s).inner()->0.limits(),
        handle == Some(&file),
        final(t).inner()->0.inner()@ == bufs@,
        final(t).inner()->0.pending() == old(t).inner()->0.pending(),
        final(t).inner()->0.limits() == old(t).inner()->0.limits(),
        final(u).inner()->0.inner()@ == old(u).inner()->0.inner()@ + buf.bytes(),
        final(u).inner()->0.inner().the_file() == old(u).inner()->0.inner().the_file(),
        final(u).inner()->0.pending() == old(u).inner()->0.pending(),
        final(u).inner()->0.limits() == old(u).inner()->0.limits(),
{
}

/// An operation on a backup thread gives its value only if it was run and succeeded,
/// and is tried again if it was interrupted or could not be run yet. Its failure and
/// that there are no such threads are failures.
pub proof fn law_unblocked<T, E>(outcome: Blocked<T, E>, r: Result<Option<T>, UnblockError<E>>)
    requires
        call_ensures(unblock::<T, E>, (outcome,), r),
    ensures
        forall|v: T| outcome == Blocked::<T, E>::Done(v) <==> r == Ok::<Option<T>, UnblockError<E>>(Some(v)),
        outcome is Interrupted || outcome is NotReady <==> r == Ok::<Option<T>, UnblockError<E>>(None),
        forall|e: E|
            outcome == Blocked::<T, E>::Failed(e)
                <==> r == Err::<Option<T>, UnblockError<E>>(UnblockError::Failed(e)),
        outcome is Unsupported <==> r == Err::<Option<T>, UnblockError<E>>(UnblockError::Unsupported),
{
}

/// A stream with backup threads is polled as one that may block, and takes what was
/// read on such a thread as any stream does. It stays as it is where nothing was
/// read.
pub proof fn law_backup_stream<B: OutputBuf<M>, F, M: Region, S: Copy, E>(
    s: &mut AsyncUniBody<F, M, S>,
    t: &mut AsyncBodyImage<F, M, S, LenientArbiter>,
    r: StreamPoll<B, M>,
    q: StreamPoll<B, M>,
    u: &mut AsyncUniBody<F, M, S>,
    w: &mut AsyncBodyImage<F, M, S, LenientArbiter>,
    outcome: Blocked<Bytes, E>,
    read: UnblockedPoll<B, M, E>,
    done: StreamPoll<B, M>,
)
    requires
        *old(t) == old(s).stream(),
        call_ensures(AsyncUniBody::<F, M, S>::poll::<B>, (s,), r),
        call_ensures(AsyncBodyImage::<F, M, S, LenientArbiter>::poll_impl::<B>, (t,), q),
        *old(w) == old(u).stream(),
        call_ensures(AsyncUniBody::<F, M, S>::read_blocked::<B, E>, (u, outcome), read),
        outcome matches Blocked::Done(b) ==> call_ensures(
            AsyncBodyImage::<F, M, S, LenientArbiter>::read_done::<B>,
            (w, Some(b)),
            done,
        ),
    ensures
        same_poll(r, q),
        final(s).stream()@ == final(t)@,
        outcome is Done ==> (read matches UnblockedPoll::Poll(p) && same_poll(p, done)) && final(u).stream()@
            == final(w)@,
        outcome is Interrupted || outcome is NotReady ==> (read matches UnblockedPoll::Poll(p) && p is Pending)
            && *final(u) == *old(u),
        outcome matches Blocked::Failed(e)
            ==> (read matches UnblockedPoll::Failed(UnblockError::Failed(f)) && f == e)
            && *final(u) == *old(u),
        outcome is Unsupported ==> (read matches UnblockedPoll::Failed(f) && f is Unsupported)
            && *final(u) == *old(u),
{
}

/// A map that was to be touched on a backup thread is the item with all its bytes,
/// whether it was touched or not. It is not if that has failed.
pub proof fn law_backup_map<B: OutputBuf<M>, F, M: Region, S: Copy, E>(
    s: &mut AsyncUniBody<F, M, S>,
    mmap: M,
    outcome: Blocked<(), E>,
    r: UnblockedPoll<B, M, E>,
    end: bool,
)
    requires
        call_ensures(AsyncUniBody::<F, M, S>::map_blocked::<B, E>, (s, mmap, outcome), r),
        call_ensures(AsyncUniBody::<F, M, S>::is_end_stream, (&*final(s),), end),
    ensures
        end <==> final(s).stream()@.body.len() == final(s).stream()@.emitted.len(),
        outcome matches Blocked::Failed(e) ==> (r matches UnblockedPoll::Failed(UnblockError::Failed(f)) && f == e)
            && *final(s) == *old(s),
        outcome is Unsupported ==> (r matches UnblockedPoll::Failed(f) && f is Unsupported) && *final(s) == *old(s),
        outcome is Done || outcome is Interrupted || outcome is NotReady ==> {
            &&& (r matches UnblockedPoll::Poll(StreamPoll::Item(b)) && b.bytes() == mmap.bytes())
            &&& final(s).stream()@.emitted == old(s).stream()@.emitted + mmap.bytes()
            &&& final(s).stream()@.body == old(s).stream()@.body
        },
{
}

/// A body that is a memory map gives all of it once, and nothing after that. Its
/// length is known until then.
pub proof fn law_map_is_given_once<F, M: Region>(
    body: BodyImage<F, M>,
    a: &mut AsyncMemMapBody<M>,
    b: &mut AsyncMemMapBody<M>,
    none: AsyncMemMapBody<M>,
    n: Option<u64>,
    m: Option<u64>,
    k: Option<u64>,
    first: Option<MemMapBuf<M>>,
    second: Option<MemMapBuf<M>>,
    before: bool,
    after: bool,
    chunk: &[u8],
)
    requires
        body.in_map(),
        body.the_map().bytes().len() <= u64::MAX,
        call_ensures(AsyncMemMapBody::<M>::new::<F>, (body,), *old(a)),
        call_ensures(AsyncMemMapBody::<M>::empty, (), none),
        call_ensures(AsyncMemMapBody::<M>::content_length, (&*old(a),), n),
        call_ensures(AsyncMemMapBody::<M>::is_end_stream, (&*old(a),), before),
        call_ensures(AsyncMemMapBody::<M>::poll_data, (a,), first),
        first is Some ==> call_ensures(MemMapBuf::<M>::chunk, (&first->0,), chunk),
        call_ensures(AsyncMemMapBody::<M>::content_length, (&*final(a),), m),
        call_ensures(AsyncMemMapBody::<M>::is_end_stream, (&*final(a),), after),
        *old(b) == *final(a),
        call_ensures(AsyncMemMapBody::<M>::poll_data, (b,), second),
        call_ensures(AsyncMemMapBody::<M>::content_length, (&none,), k),
    ensures
        !before && after,
        n is Some && n->0 == body.the_map().bytes().len(),
        first is Some && chunk@ == body.the_map().bytes(),
        m is None && second is None && k is None,
{
}

} // verus!
