//! Sinks of bytes to a [`BodySink`].
use vstd::prelude::*;

use crate::blocking::{Blocking, BlockingArbiter, LenientArbiter, StatefulArbiter};
use crate::body::{BodyError, BodySink, WriteBack};
use crate::futio::buf::InputBuf;
use crate::futio::stream::WaitPoll;
use crate::futio::FutioError;
use crate::tune::{BlockingPolicy, FutioTunables, Tunables};

verus! {

/// A sink that writes its items to a [`BodySink`].
///
/// The body is kept in RAM as long as it is no longer than
/// [`Tunables::max_body_ram`], and is else written to a file. That needs to
/// block, which an arbiter is asked for.
pub struct AsyncBodySink<B: InputBuf, F, S: Copy, BA: BlockingArbiter> {
    body: BodySink<F>,
    tune: FutioTunables<S>,
    arbiter: BA,
    buf: Option<B>,
}

/// A sink that may block whenever it needs to.
pub type OmniBodySink<B, F, S> = AsyncBodySink<B, F, S, LenientArbiter>;

/// What a sink asks of the caller, on behalf of an item.
pub enum FlushStep<B> {
    /// There is nothing to do: the item, if there was one, is written.
    Ready,
    /// The item is refused.
    Failed(FutioError),
    /// Blocking is needed and was not granted.
    Pending,
    /// Open a new file, write the buffers to it, and report it by
    /// [`AsyncBodySink::opened`]. Then write the item to it, and report that by
    /// [`AsyncBodySink::written`].
    Open(WriteBack, B),
    /// Write the item to the end of the file, and report that by
    /// [`AsyncBodySink::written`].
    Append(B),
}

/// Whether an item can only be written to a file.
pub open spec fn needs_file<F>(body: BodySink<F>, len: int, tune: Tunables) -> bool {
    !body.in_ram() || body@.len() + len > tune.max_body_ram
}

/// Whether an item has to be blocked for.
pub open spec fn needs_blocking<F>(body: BodySink<F>, len: int, tune: Tunables) -> bool {
    len > 0 && body@.len() + len <= tune.max_body && needs_file(body, len, tune)
}

/// The outcome of an attempt to send an item, where a request to block, if one
/// was made, had the given answer.
pub open spec fn is_sent<B: InputBuf, F>(
    before: BodySink<F>,
    after: BodySink<F>,
    tune: Tunables,
    item: B,
    granted: bool,
    r: FlushStep<B>,
) -> bool {
    let len = item.bytes().len() as int;
    let new_len = before@.len() + len;
    if len == 0 {
        r is Ready && after == before
    } else if new_len > tune.max_body {
        &&& r == FlushStep::<B>::Failed(FutioError::Body(BodyError::BodyTooLong(new_len as u64)))
        &&& after == before
    } else if !needs_file(before, len, tune) {
        r is Ready && after.in_ram() && after@ == before@ + item.bytes()
    } else if !granted {
        r is Pending && after == before
    } else if before.in_ram() {
        &&& r is Open
        &&& r->Open_0@ == before@
        &&& r->Open_1 == item
        &&& after.in_ram()
        &&& after@ == Seq::<u8>::empty()
    } else {
        r == FlushStep::<B>::Append(item) && after == before
    }
}

impl<B: InputBuf, F, S: Copy> AsyncBodySink<B, F, S, LenientArbiter> {
    /// A sink that may block whenever it needs to.
    pub fn new(body: BodySink<F>, tune: FutioTunables<S>) -> (r: Self)
        ensures
            r.inner() == body,
            r.limits() == tune.image,
            r.policy() == tune.blocking_policy,
            r.pending() is None,
    {
        AsyncBodySink { body, tune, arbiter: LenientArbiter, buf: None }
    }
}

impl<B: InputBuf, F, S: Copy, BA: BlockingArbiter> AsyncBodySink<B, F, S, BA> {
    /// The body that is written to.
    pub closed spec fn inner(&self) -> BodySink<F> {
        self.body
    }

    /// The limits for the body.
    pub closed spec fn limits(&self) -> Tunables {
        self.tune.image
    }

    /// The policy for blocking operations.
    pub closed spec fn policy(&self) -> BlockingPolicy<S> {
        self.tune.blocking_policy
    }

    /// The arbiter.
    pub closed spec fn arbiter(&self) -> BA {
        self.arbiter
    }

    /// The item that is not written yet.
    pub closed spec fn pending(&self) -> Option<B> {
        self.buf
    }

    /// A sink with an arbiter of blocking operations.
    pub fn with_arbiter(body: BodySink<F>, tune: FutioTunables<S>, arbiter: BA) -> (r: Self)
        ensures
            r.inner() == body,
            r.limits() == tune.image,
            r.policy() == tune.blocking_policy,
            r.pending() is None,
            r.arbiter() == arbiter,
    {
        AsyncBodySink { body, tune, arbiter, buf: None }
    }

    /// The body that was written to.
    pub fn into_inner(self) -> (r: BodySink<F>)
        ensures
            r == self.inner(),
    {
        self.body
    }

    /// The body that is written to.
    pub fn body(&self) -> (r: &BodySink<F>)
        ensures
            *r == self.inner(),
    {
        &self.body
    }

    /// The body that is written to, for changes of it.
    pub fn body_mut(&mut self) -> (r: &mut BodySink<F>)
        ensures
            *r == old(self).inner(),
            final(self).inner() == *final(r),
            final(self).limits() == old(self).limits(),
            final(self).policy() == old(self).policy(),
            final(self).arbiter() == old(self).arbiter(),
            final(self).pending() == old(self).pending(),
    {
        &mut self.body
    }

    /// Take an item, while none is pending.
    pub fn send(&mut self, buf: B)
        requires
            old(self).pending() is None,
        ensures
            final(self).pending() == Some(buf),
            final(self).inner() == old(self).inner(),
            final(self).limits() == old(self).limits(),
            final(self).policy() == old(self).policy(),
            final(self).arbiter() == old(self).arbiter(),
    {
        self.buf = Some(buf);
    }

    /// Try to send an item. It is kept as pending where blocking is needed and
    /// was not granted.
    pub fn poll_send(&mut self, buf: B) -> (r: FlushStep<B>)
        requires
            old(self).inner()@.len() + buf.bytes().len() <= u64::MAX,
        ensures
            final(self).limits() == old(self).limits(),
            final(self).policy() == old(self).policy(),
            is_sent(
                old(self).inner(),
                final(self).inner(),
                old(self).limits(),
                buf,
                old(self).arbiter().permits(),
                r,
            ),
            final(self).pending() == (if r is Pending {
                Some(buf)
            } else {
                old(self).pending()
            }),
            if needs_blocking(old(self).inner(), buf.bytes().len() as int, old(self).limits()) {
                final(self).arbiter().blocking() == old(self).arbiter().requested()
            } else {
                final(self).arbiter() == old(self).arbiter()
            },
    {
        let len: usize = buf.remaining();
        if len == 0 {
            return FlushStep::Ready;
        }
        let new_len: u64 = self.body.len() + len as u64;
        if new_len > self.tune.image.max_body() {
            return FlushStep::Failed(FutioError::Body(BodyError::BodyTooLong(new_len)));
        }
        if self.body.is_ram() && new_len <= self.tune.image.max_body_ram() {
            let _ = self.body.save(buf.into_bytes());
            return FlushStep::Ready;
        }
        if !self.arbiter.can_block() {
            self.buf = Some(buf);
            return FlushStep::Pending;
        }
        match self.body.write_back() {
            Some(back) => FlushStep::Open(back, buf),
            None => FlushStep::Append(buf),
        }
    }

    /// Try to send the pending item, if there is one.
    pub fn poll_flush_impl(&mut self) -> (r: FlushStep<B>)
        requires
            old(self).pending() is Some ==> old(self).inner()@.len() + old(self).pending()->0.bytes().len()
                <= u64::MAX,
        ensures
            final(self).limits() == old(self).limits(),
            final(self).policy() == old(self).policy(),
            match old(self).pending() {
                None => r is Ready && *final(self) == *old(self),
                Some(item) => {
                    &&& is_sent(
                        old(self).inner(),
                        final(self).inner(),
                        old(self).limits(),
                        item,
                        old(self).arbiter().permits(),
                        r,
                    )
                    &&& final(self).pending() == (if r is Pending {
                        Some(item)
                    } else {
                        None
                    })
                    &&& if needs_blocking(
                        old(self).inner(),
                        item.bytes().len() as int,
                        old(self).limits(),
                    ) {
                        final(self).arbiter().blocking() == old(self).arbiter().requested()
                    } else {
                        final(self).arbiter() == old(self).arbiter()
                    }
                },
            },
    {
        match self.buf.take() {
            Some(buf) => self.poll_send(buf),
            None => FlushStep::Ready,
        }
    }

    /// Continue with the file to which all of the buffers were written.
    pub fn opened(&mut self, back: WriteBack, file: F)
        ensures
            !final(self).inner().in_ram(),
            final(self).inner().the_file() == file,
            final(self).inner()@ == back@,
            final(self).limits() == old(self).limits(),
            final(self).policy() == old(self).policy(),
            final(self).arbiter() == old(self).arbiter(),
            final(self).pending() == old(self).pending(),
    {
        self.body.written_back(back, file);
    }

    /// The file to which an item is to be written.
    pub fn file(&self) -> (r: Option<&F>)
        ensures
            r is Some == !self.inner().in_ram(),
            r is Some ==> *r->0 == self.inner().the_file(),
    {
        self.body.file()
    }

    /// Continue after an item was written to the end of the file.
    pub fn written(&mut self, buf: &B)
        requires
            !old(self).inner().in_ram(),
            old(self).inner()@.len() + buf.bytes().len() <= u64::MAX,
        ensures
            !final(self).inner().in_ram(),
            final(self).inner().the_file() == old(self).inner().the_file(),
            final(self).inner()@ == old(self).inner()@ + buf.bytes(),
            final(self).limits() == old(self).limits(),
            final(self).policy() == old(self).policy(),
            final(self).arbiter() == old(self).arbiter(),
            final(self).pending() == old(self).pending(),
    {
        self.body.appended(buf.chunk());
    }
}

impl<B: InputBuf, F, S: Copy> AsyncBodySink<B, F, S, StatefulArbiter> {
    /// Allow the sink to block once.
    pub fn permit_once(&mut self)
        ensures
            final(self).arbiter().state is Once,
            final(self).inner() == old(self).inner(),
            final(self).limits() == old(self).limits(),
            final(self).policy() == old(self).policy(),
            final(self).pending() == old(self).pending(),
    {
        self.arbiter.set(Blocking::Once);
    }
}

/// A body stays within the limits: it is never longer than the maximum, and in
/// RAM never longer than the maximum for that. An item that is accepted is
/// within the maximum too.
pub proof fn law_sink_within_limits<B: InputBuf, F>(
    before: BodySink<F>,
    after: BodySink<F>,
    tune: Tunables,
    item: B,
    granted: bool,
    r: FlushStep<B>,
)
    requires
        is_sent(before, after, tune, item, granted, r),
        before@.len() <= tune.max_body,
        before.in_ram() ==> before@.len() <= tune.max_body_ram,
    ensures
        after@.len() <= tune.max_body,
        after.in_ram() ==> after@.len() <= tune.max_body_ram,
        r is Failed ==> before@.len() + item.bytes().len() > tune.max_body,
        r is Append ==> before@.len() + item.bytes().len() <= tune.max_body,
        r is Open ==> before@.len() + item.bytes().len() <= tune.max_body,
{
}

/// An item is never lost: it is added to the body, or handed back to be written
/// or kept, or refused as it makes the body too long. Nothing but what was
/// written before is in the buffers that go to a file.
pub proof fn law_item_is_accounted_for<B: InputBuf, F>(
    before: BodySink<F>,
    after: BodySink<F>,
    tune: Tunables,
    item: B,
    granted: bool,
    r: FlushStep<B>,
)
    requires
        is_sent(before, after, tune, item, granted, r),
    ensures
        match r {
            FlushStep::Ready => after@ == before@ + item.bytes(),
            FlushStep::Failed(_) => after == before,
            FlushStep::Pending => after == before && !granted,
            FlushStep::Open(back, b) => back@ == before@ && b == item && before.in_ram(),
            FlushStep::Append(b) => b == item && after == before && !before.in_ram(),
        },
{
    if item.bytes().len() == 0 {
        assert(before@ + item.bytes() =~= before@);
    }
}

/// What a sink with permits asks of the caller.
pub enum PermitFlush<B, S> {
    /// What the sink itself asks.
    Flush(FlushStep<B>),
    /// Obtain a permit of the semaphore, poll it, and report by
    /// [`PermitBodySink::permit_polled`].
    Ask(S),
    /// The permit was canceled, which is a failure.
    Canceled,
}

/// A sink that obtains a permit before each operation that blocks.
pub struct PermitBodySink<B: InputBuf, F, S: Copy> {
    sink: AsyncBodySink<B, F, S, StatefulArbiter>,
    waiting: bool,
}

/// Whether the pending item of a sink has to be blocked for.
pub open spec fn must_block<B: InputBuf, F, S: Copy>(sink: AsyncBodySink<B, F, S, StatefulArbiter>) -> bool {
    sink.pending() matches Some(item) && needs_blocking(
        sink.inner(),
        item.bytes().len() as int,
        sink.limits(),
    )
}

/// Whether the length of the body with the pending item can be counted.
pub open spec fn is_countable<B: InputBuf, F, S: Copy>(
    sink: AsyncBodySink<B, F, S, StatefulArbiter>,
) -> bool {
    sink.pending() matches Some(item) ==> sink.inner()@.len() + item.bytes().len() <= u64::MAX
}

impl<B: InputBuf, F, S: Copy> PermitBodySink<B, F, S> {
    /// The arbiter is pending exactly while a permit is waited for, and that is
    /// only where there is something to block for.
    pub closed spec fn wf(&self) -> bool {
        &&& self.sink.arbiter().state == (if self.waiting {
            Blocking::Pending
        } else {
            Blocking::Void
        })
        &&& self.waiting ==> must_block(self.sink)
    }

    /// The sink itself.
    pub closed spec fn inner(&self) -> AsyncBodySink<B, F, S, StatefulArbiter> {
        self.sink
    }

    /// Whether a permit is waited for.
    pub closed spec fn waits(&self) -> bool {
        self.waiting
    }

    /// Whether the pending item has to be blocked for, for which the policy has to
    /// have a semaphore.
    pub fn needs_permit(&self) -> (b: bool)
        ensures
            b == must_block(self.inner()),
    {
        match &self.sink.buf {
            Some(item) => {
                let len: u64 = item.remaining() as u64;
                let room: u64 = u64::MAX - self.sink.body.len();
                if len == 0 || len > room {
                    return false;
                }
                let new_len: u64 = self.sink.body.len() + len;
                new_len <= self.sink.tune.image.max_body() && (!self.sink.body.is_ram() || new_len
                    > self.sink.tune.image.max_body_ram())
            },
            None => false,
        }
    }

    /// A sink to a body.
    pub fn new(body: BodySink<F>, tune: FutioTunables<S>) -> (r: Self)
        ensures
            r.wf(),
            !r.waits(),
            r.inner().inner() == body,
            r.inner().limits() == tune.image,
            r.inner().policy() == tune.blocking_policy,
            r.inner().pending() is None,
    {
        let arbiter = StatefulArbiter { state: Blocking::Void };
        PermitBodySink { sink: AsyncBodySink::with_arbiter(body, tune, arbiter), waiting: false }
    }

    /// The body that was written to.
    pub fn into_inner(self) -> (r: BodySink<F>)
        ensures
            r == self.inner().inner(),
    {
        self.sink.into_inner()
    }

    /// Whether a permit is waited for.
    pub fn is_waiting(&self) -> (b: bool)
        ensures
            b == self.waits(),
    {
        self.waiting
    }

    /// Take an item, while none is pending.
    pub fn start_send(&mut self, buf: B)
        requires
            old(self).wf(),
            !old(self).waits(),
            old(self).inner().pending() is None,
        ensures
            final(self).wf(),
            !final(self).waits(),
            final(self).inner().pending() == Some(buf),
            final(self).inner().inner() == old(self).inner().inner(),
            final(self).inner().limits() == old(self).inner().limits(),
            final(self).inner().policy() == old(self).inner().policy(),
    {
        self.sink.send(buf);
    }

    /// Try to send the pending item, while no permit is waited for. Where
    /// blocking is needed a permit is asked for, of the semaphore that the
    /// policy has to have.
    pub fn poll_flush(&mut self) -> (r: PermitFlush<B, S>)
        requires
            old(self).wf(),
            !old(self).waits(),
            is_countable(old(self).inner()),
            must_block(old(self).inner()) ==> old(self).inner().policy() is Permit,
        ensures
            final(self).wf(),
            final(self).inner().limits() == old(self).inner().limits(),
            final(self).inner().policy() == old(self).inner().policy(),
            final(self).waits() == must_block(old(self).inner()),
            if must_block(old(self).inner()) {
                &&& r == PermitFlush::<B, S>::Ask(old(self).inner().policy()->Permit_0)
                &&& final(self).inner().inner() == old(self).inner().inner()
                &&& final(self).inner().pending() == old(self).inner().pending()
            } else {
                &&& r is Flush
                &&& final(self).inner().pending() is None
                &&& match old(self).inner().pending() {
                    None => r->Flush_0 is Ready && final(self).inner().inner() == old(self).inner().inner(),
                    Some(item) => is_sent(
                        old(self).inner().inner(),
                        final(self).inner().inner(),
                        old(self).inner().limits(),
                        item,
                        false,
                        r->Flush_0,
                    ),
                }
            },
    {
        let r = self.sink.poll_flush_impl();
        match r {
            FlushStep::Pending => {
                self.waiting = true;
                match self.sink.tune.blocking_semaphore() {
                    Some(s) => PermitFlush::Ask(s),
                    None => PermitFlush::Canceled,
                }
            },
            r => PermitFlush::Flush(r),
        }
    }

    /// Go on, while a permit is waited for, by how far it has got. Once it was
    /// granted the file is to be written.
    pub fn permit_polled(&mut self, permit: WaitPoll) -> (r: PermitFlush<B, S>)
        requires
            old(self).wf(),
            old(self).waits(),
            is_countable(old(self).inner()),
        ensures
            final(self).wf(),
            final(self).inner().limits() == old(self).inner().limits(),
            final(self).inner().policy() == old(self).inner().policy(),
            match permit {
                WaitPoll::Pending => *final(self) == *old(self) && r == PermitFlush::<B, S>::Flush(
                    FlushStep::Pending,
                ),
                WaitPoll::Canceled => *final(self) == *old(self) && r is Canceled,
                WaitPoll::Ready => {
                    &&& !final(self).waits()
                    &&& final(self).inner().pending() is None
                    &&& r is Flush
                    &&& !(r->Flush_0 is Pending)
                    &&& is_sent(
                        old(self).inner().inner(),
                        final(self).inner().inner(),
                        old(self).inner().limits(),
                        old(self).inner().pending()->0,
                        true,
                        r->Flush_0,
                    )
                },
            },
    {
        match permit {
            WaitPoll::Pending => PermitFlush::Flush(FlushStep::Pending),
            WaitPoll::Canceled => PermitFlush::Canceled,
            WaitPoll::Ready => {
                self.waiting = false;
                self.sink.permit_once();
                PermitFlush::Flush(self.sink.poll_flush_impl())
            },
        }
    }

    /// As [`AsyncBodySink::opened`].
    pub fn opened(&mut self, back: WriteBack, file: F)
        requires
            old(self).wf(),
            !old(self).waits(),
        ensures
            final(self).wf(),
            !final(self).waits(),
            !final(self).inner().inner().in_ram(),
            final(self).inner().inner().the_file() == file,
            final(self).inner().inner()@ == back@,
            final(self).inner().limits() == old(self).inner().limits(),
            final(self).inner().policy() == old(self).inner().policy(),
            final(self).inner().pending() == old(self).inner().pending(),
    {
        self.sink.opened(back, file);
    }

    /// As [`AsyncBodySink::file`].
    pub fn file(&self) -> (r: Option<&F>)
        ensures
            r is Some == !self.inner().inner().in_ram(),
            r is Some ==> *r->0 == self.inner().inner().the_file(),
    {
        self.sink.file()
    }

    /// As [`AsyncBodySink::written`].
    pub fn written(&mut self, buf: &B)
        requires
            old(self).wf(),
            !old(self).waits(),
            !old(self).inner().inner().in_ram(),
            old(self).inner().inner()@.len() + buf.bytes().len() <= u64::MAX,
        ensures
            final(self).wf(),
            !final(self).waits(),
            !final(self).inner().inner().in_ram(),
            final(self).inner().inner().the_file() == old(self).inner().inner().the_file(),
            final(self).inner().inner()@ == old(self).inner().inner()@ + buf.bytes(),
            final(self).inner().limits() == old(self).inner().limits(),
            final(self).inner().policy() == old(self).inner().policy(),
            final(self).inner().pending() == old(self).inner().pending(),
    {
        self.sink.written(buf);
    }
}

/// What a sink that dispatches asks of the caller.
pub enum DispatchFlush<B: InputBuf, F, S: Copy> {
    /// What the sink itself asks.
    Flush(FlushStep<B>),
    /// Have the sink flushed where blocking is acceptable: it is allowed to
    /// block once. Then hand it back by [`DispatchBodySink::dispatch_polled`].
    Dispatch(AsyncBodySink<B, F, S, StatefulArbiter>),
    /// The operation was canceled, which is a failure.
    Canceled,
}

/// How far an operation of a sink that was dispatched has got.
pub enum DispatchedSink<B: InputBuf, F, S: Copy> {
    /// It is not completed yet.
    Pending,
    /// It was completed, and here is the sink.
    Ready(AsyncBodySink<B, F, S, StatefulArbiter>),
    /// It was canceled.
    Canceled,
}

/// A sink that has each operation that blocks dispatched to a pool of threads.
pub struct DispatchBodySink<B: InputBuf, F, S: Copy> {
    sink: Option<AsyncBodySink<B, F, S, StatefulArbiter>>,
}

impl<B: InputBuf, F, S: Copy> DispatchBodySink<B, F, S> {
    /// A sink that is here has nothing to block for at the moment.
    pub closed spec fn wf(&self) -> bool {
        self.sink matches Some(s) ==> s.arbiter().state is Void
    }

    /// The sink itself, unless it is dispatched.
    pub closed spec fn inner(&self) -> Option<AsyncBodySink<B, F, S, StatefulArbiter>> {
        self.sink
    }

    /// A sink to a body.
    pub fn new(body: BodySink<F>, tune: FutioTunables<S>) -> (r: Self)
        ensures
            r.wf(),
            r.inner() is Some,
            r.inner()->0.inner() == body,
            r.inner()->0.limits() == tune.image,
            r.inner()->0.pending() is None,
    {
        let arbiter = StatefulArbiter { state: Blocking::Void };
        DispatchBodySink { sink: Some(AsyncBodySink::with_arbiter(body, tune, arbiter)) }
    }

    /// The body that was written to. It cannot be recovered while dispatched.
    pub fn into_inner(self) -> (r: Option<BodySink<F>>)
        ensures
            r == (match self.inner() {
                Some(s) => Some(s.inner()),
                None => None,
            }),
    {
        match self.sink {
            Some(s) => Some(s.into_inner()),
            None => None,
        }
    }

    /// Whether the sink is dispatched.
    pub fn is_dispatched(&self) -> (b: bool)
        ensures
            b == (self.inner() is None),
    {
        self.sink.is_none()
    }

    /// Take an item, while none is pending and the sink is not dispatched.
    pub fn start_send(&mut self, buf: B)
        requires
            old(self).wf(),
            old(self).inner() is Some,
            old(self).inner()->0.pending() is None,
        ensures
            final(self).wf(),
            final(self).inner() is Some,
            final(self).inner()->0.pending() == Some(buf),
            final(self).inner()->0.inner() == old(self).inner()->0.inner(),
            final(self).inner()->0.limits() == old(self).inner()->0.limits(),
    {
        if let Some(mut s) = self.sink.take() {
            s.send(buf);
            self.sink = Some(s);
        }
    }

    /// Try to send the pending item, while the sink is not dispatched. Where
    /// blocking is needed the sink is given away, to be flushed elsewhere.
    pub fn poll_flush(&mut self) -> (r: DispatchFlush<B, F, S>)
        requires
            old(self).wf(),
            old(self).inner() is Some,
            is_countable(old(self).inner()->0),
        ensures
            final(self).wf(),
            ({
                let sink = old(self).inner()->0;
                if must_block(sink) {
                    &&& r is Dispatch
                    &&& final(self).inner() is None
                    &&& r->Dispatch_0.inner() == sink.inner()
                    &&& r->Dispatch_0.limits() == sink.limits()
                    &&& r->Dispatch_0.pending() == sink.pending()
                    &&& r->Dispatch_0.arbiter().state is Once
                } else {
                    &&& r is Flush
                    &&& final(self).inner() is Some
                    &&& final(self).inner()->0.limits() == sink.limits()
                    &&& final(self).inner()->0.pending() is None
                    &&& match sink.pending() {
                        None => r->Flush_0 is Ready && final(self).inner()->0.inner() == sink.inner(),
                        Some(item) => is_sent(
                            sink.inner(),
                            final(self).inner()->0.inner(),
                            sink.limits(),
                            item,
                            false,
                            r->Flush_0,
                        ),
                    }
                }
            }),
    {
        match self.sink.take() {
            None => DispatchFlush::Canceled,
            Some(mut sink) => {
                let r = sink.poll_flush_impl();
                match r {
                    FlushStep::Pending => {
                        sink.permit_once();
                        DispatchFlush::Dispatch(sink)
                    },
                    r => {
                        self.sink = Some(sink);
                        DispatchFlush::Flush(r)
                    },
                }
            },
        }
    }

    /// Go on, while the sink is dispatched, by how far that has got. Returns
    /// `None` where the operation was completed, with the outcome of which the
    /// caller goes on.
    pub fn dispatch_polled(&mut self, poll: DispatchedSink<B, F, S>) -> (r: Option<DispatchFlush<B, F, S>>)
        requires
            old(self).inner() is None,
            poll is Ready ==> poll->Ready_0.arbiter().state is Void,
        ensures
            final(self).wf(),
            match poll {
                DispatchedSink::Pending => *final(self) == *old(self) && r == Some(
                    DispatchFlush::<B, F, S>::Flush(FlushStep::Pending),
                ),
                DispatchedSink::Canceled => *final(self) == *old(self) && r == Some(
                    DispatchFlush::<B, F, S>::Canceled,
                ),
                DispatchedSink::Ready(sink) => r is None && final(self).inner() == Some(sink),
            },
    {
        match poll {
            DispatchedSink::Pending => Some(DispatchFlush::Flush(FlushStep::Pending)),
            DispatchedSink::Canceled => Some(DispatchFlush::Canceled),
            DispatchedSink::Ready(sink) => {
                self.sink = Some(sink);
                None
            },
        }
    }
}

/// What becomes of an item of a sink that may block: it is refused exactly if the body
/// would be too long with it. It is kept in RAM while the limit for that allows, and
/// otherwise is to be written to a file, which is opened first for all that is in
/// RAM. An empty item changes nothing.
pub proof fn law_item_is_sent<B: InputBuf, F, S: Copy>(
    s: &mut AsyncBodySink<B, F, S, LenientArbiter>,
    buf: B,
    r: FlushStep<B>,
)
    requires
        old(s).inner()@.len() + buf.bytes().len() <= u64::MAX,
        call_ensures(AsyncBodySink::<B, F, S, LenientArbiter>::poll_send, (s, buf), r),
    ensures
        ({
            let before = old(s).inner();
            let after = final(s).inner();
            let tune = old(s).limits();
            let len = buf.bytes().len();
            let total = before@.len() + len;
            let to_file = len > 0 && total <= tune.max_body && (!before.in_ram() || total > tune.max_body_ram);
            &&& len == 0 ==> r is Ready && after == before
            &&& len > 0 && total > tune.max_body
                ==> (r matches FlushStep::Failed(FutioError::Body(BodyError::BodyTooLong(n))) && n
                == total && after == before)
            &&& len > 0 && total <= tune.max_body && before.in_ram() && total <= tune.max_body_ram
                ==> r is Ready && after.in_ram() && after@ == before@ + buf.bytes()
            &&& to_file && before.in_ram()
                ==> (r matches FlushStep::Open(back, b) && back@ == before@ && b == buf && after.in_ram()
                && after@ == Seq::<u8>::empty())
            &&& to_file && !before.in_ram() ==> (r matches FlushStep::Append(b) && b == buf && after == before)
            &&& final(s).pending() == old(s).pending()
            &&& final(s).limits() == tune
        }),
{
}

/// The pending item of such a sink is sent as any, and is then no longer pending
/// unless it has to be waited for.
pub proof fn law_pending_item_is_sent<B: InputBuf, F, S: Copy>(
    s: &mut AsyncBodySink<B, F, S, LenientArbiter>,
    r: FlushStep<B>,
)
    requires
        old(s).pending() matches Some(item) ==> old(s).inner()@.len() + item.bytes().len() <= u64::MAX,
        call_ensures(AsyncBodySink::<B, F, S, LenientArbiter>::poll_flush_impl, (s,), r),
    ensures
        ({
            let before = old(s).inner();
            let after = final(s).inner();
            let tune = old(s).limits();
            let item = old(s).pending()->0;
            let some = old(s).pending() is Some;
            let len = item.bytes().len();
            let total = before@.len() + len;
            let to_file = len > 0 && total <= tune.max_body && (!before.in_ram() || total > tune.max_body_ram);
            &&& !some ==> r is Ready && after == before && final(s).pending() is None
            &&& some && len == 0 ==> r is Ready && after == before
            &&& some && len > 0 && total > tune.max_body
                ==> (r matches FlushStep::Failed(FutioError::Body(BodyError::BodyTooLong(n))) && n
                == total && after == before)
            &&& some && len > 0 && total <= tune.max_body && before.in_ram()
                && total <= tune.max_body_ram
                ==> r is Ready && after.in_ram() && after@ == before@ + item.bytes()
            &&& some && to_file && before.in_ram()
                ==> (r matches FlushStep::Open(back, b) && back@ == before@ && b == item
                && after.in_ram() && after@ == Seq::<u8>::empty())
            &&& some && to_file && !before.in_ram()
                ==> (r matches FlushStep::Append(b) && b == item && after == before)
            &&& final(s).pending() is None
            &&& final(s).limits() == tune
        }),
{
}

/// What becomes of an item of a sink that has to ask before it blocks. Only where a file
/// is needed does it ask, and the item is kept as pending while it is not allowed to.
pub proof fn law_item_is_sent_by_arbiter<B: InputBuf, F, S: Copy>(
    s: &mut AsyncBodySink<B, F, S, StatefulArbiter>,
    buf: B,
    r: FlushStep<B>,
)
    requires
        old(s).inner()@.len() + buf.bytes().len() <= u64::MAX,
        call_ensures(AsyncBodySink::<B, F, S, StatefulArbiter>::poll_send, (s, buf), r),
    ensures
        ({
            let before = old(s).inner();
            let after = final(s).inner();
            let tune = old(s).limits();
            let state = old(s).arbiter().state;
            let granted = state is Once || state is Always;
            let len = buf.bytes().len();
            let total = before@.len() + len;
            let to_file = len > 0 && total <= tune.max_body && (!before.in_ram() || total > tune.max_body_ram);
            &&& len == 0 ==> r is Ready && after == before
            &&& len > 0 && total > tune.max_body
                ==> (r matches FlushStep::Failed(FutioError::Body(BodyError::BodyTooLong(n))) && n
                == total && after == before)
            &&& len > 0 && total <= tune.max_body && before.in_ram() && total <= tune.max_body_ram
                ==> r is Ready && after.in_ram() && after@ == before@ + buf.bytes()
            &&& granted && to_file && before.in_ram()
                ==> (r matches FlushStep::Open(back, b) && back@ == before@ && b == buf && after.in_ram()
                && after@ == Seq::<u8>::empty())
            &&& granted && to_file && !before.in_ram()
                ==> (r matches FlushStep::Append(b) && b == buf && after == before)
            &&& !granted && to_file ==> r is Pending && after == before && final(s).pending() == Some(buf)
            &&& r is Pending || final(s).pending() == old(s).pending()
            &&& !to_file ==> final(s).arbiter().state == state
            &&& to_file && state is Once ==> final(s).arbiter().state is Void
            &&& to_file && !granted ==> final(s).arbiter().state is Pending
            &&& final(s).limits() == tune
        }),
{
}

/// The pending item of such a sink is sent as any, and is then no longer pending
/// unless it has to be waited for.
pub proof fn law_pending_item_is_sent_by_arbiter<B: InputBuf, F, S: Copy>(
    s: &mut AsyncBodySink<B, F, S, StatefulArbiter>,
    r: FlushStep<B>,
)
    requires
        old(s).pending() matches Some(item) ==> old(s).inner()@.len() + item.bytes().len() <= u64::MAX,
        call_ensures(AsyncBodySink::<B, F, S, StatefulArbiter>::poll_flush_impl, (s,), r),
    ensures
        ({
            let before = old(s).inner();
            let after = final(s).inner();
            let tune = old(s).limits();
            let item = old(s).pending()->0;
            let some = old(s).pending() is Some;
            let state = old(s).arbiter().state;
            let granted = state is Once || state is Always;
            let len = item.bytes().len();
            let total = before@.len() + len;
            let to_file = len > 0 && total <= tune.max_body && (!before.in_ram() || total > tune.max_body_ram);
            &&& !some ==> r is Ready && after == before && final(s).pending() is None
            &&& some && len == 0 ==> r is Ready && after == before
            &&& some && len > 0 && total > tune.max_body
                ==> (r matches FlushStep::Failed(FutioError::Body(BodyError::BodyTooLong(n))) && n
                == total && after == before)
            &&& some && len > 0 && total <= tune.max_body && before.in_ram()
                && total <= tune.max_body_ram
                ==> r is Ready && after.in_ram() && after@ == before@ + item.bytes()
            &&& granted && some && to_file && before.in_ram()
                ==> (r matches FlushStep::Open(back, b) && back@ == before@ && b == item
                && after.in_ram() && after@ == Seq::<u8>::empty())
            &&& granted && some && to_file && !before.in_ram()
                ==> (r matches FlushStep::Append(b) && b == item && after == before)
            &&& !granted && some && to_file ==> r is Pending && after == before && final(s).pending() == Some(item)
            &&& r is Pending || final(s).pending() is None
            &&& final(s).limits() == tune
        }),
{
}

/// A new sink has the body that it was made with, and its limits, and gives the
/// body back.
pub proof fn law_new_sink<B: InputBuf, F, S: Copy>(
    body: BodySink<F>,
    tune: FutioTunables<S>,
    arbiter: StatefulArbiter,
    a: AsyncBodySink<B, F, S, LenientArbiter>,
    b: AsyncBodySink<B, F, S, StatefulArbiter>,
    shown: &BodySink<F>,
    other: &BodySink<F>,
    file: Option<&F>,
    same: Option<&F>,
    back: BodySink<F>,
    again: BodySink<F>,
)
    requires
        call_ensures(AsyncBodySink::<B, F, S, LenientArbiter>::new, (body, tune), a),
        call_ensures(AsyncBodySink::<B, F, S, StatefulArbiter>::with_arbiter, (body, tune, arbiter), b),
        call_ensures(AsyncBodySink::<B, F, S, LenientArbiter>::body, (&a,), shown),
        call_ensures(AsyncBodySink::<B, F, S, StatefulArbiter>::body, (&b,), other),
        call_ensures(BodySink::<F>::file, (&body,), file),
        call_ensures(AsyncBodySink::<B, F, S, LenientArbiter>::file, (&a,), same),
        call_ensures(AsyncBodySink::<B, F, S, LenientArbiter>::into_inner, (a,), back),
        call_ensures(AsyncBodySink::<B, F, S, StatefulArbiter>::into_inner, (b,), again),
    ensures
        *shown == body,
        *other == body,
        back == body,
        again == body,
        same == file,
        a.pending() is None && b.pending() is None,
        a.limits() == tune.image && b.limits() == tune.image,
        a.policy() == tune.blocking_policy && b.policy() == tune.blocking_policy,
        b.arbiter() == arbiter,
{
}

/// What is reported to a sink is what it goes on with: an item that it was given, a
/// file with all the bytes before, an item that was written to the file, and a
/// permission to block once.
pub proof fn law_sink_goes_on<B: InputBuf, F, S: Copy>(
    s: &mut AsyncBodySink<B, F, S, StatefulArbiter>,
    t: &mut AsyncBodySink<B, F, S, StatefulArbiter>,
    u: &mut AsyncBodySink<B, F, S, StatefulArbiter>,
    v: &mut AsyncBodySink<B, F, S, StatefulArbiter>,
    buf: B,
    back: WriteBack,
    file: F,
)
    requires
        call_ensures(AsyncBodySink::<B, F, S, StatefulArbiter>::send, (s, buf), ()),
        call_ensures(AsyncBodySink::<B, F, S, StatefulArbiter>::opened, (t, back, file), ()),
        call_ensures(AsyncBodySink::<B, F, S, StatefulArbiter>::written, (u, &buf), ()),
        call_ensures(AsyncBodySink::<B, F, S, StatefulArbiter>::permit_once, (v,), ()),
    ensures
        final(s).pending() == Some(buf) && final(s).inner() == old(s).inner() && final(s).limits()
            == old(s).limits(),
        !final(t).inner().in_ram() && final(t).inner().the_file() == file && final(t).inner()@ == back@,
        final(t).limits() == old(t).limits() && final(t).pending() == old(t).pending(),
        !final(u).inner().in_ram() && final(u).inner().the_file() == old(u).inner().the_file(),
        final(u).inner()@ == old(u).inner()@ + buf.bytes(),
        final(u).limits() == old(u).limits() && final(u).pending() == old(u).pending(),
        final(v).arbiter().state is Once && final(v).inner() == old(v).inner(),
        final(v).limits() == old(v).limits() && final(v).pending() == old(v).pending(),
{
}

/// A sink with permits asks for one of its semaphore exactly if its item can only be
/// written to a file, and keeps the item until then. Otherwise the item is sent as
/// by any sink.
pub proof fn law_permit_flush<B: InputBuf, F, S: Copy>(
    s: &mut PermitBodySink<B, F, S>,
    r: PermitFlush<B, S>,
)
    requires
        old(s).wf(),
        !old(s).waits(),
        (old(s).inner().pending() matches Some(item)
            ==> old(s).inner().inner()@.len() + item.bytes().len() <= u64::MAX),
        call_ensures(PermitBodySink::<B, F, S>::poll_flush, (s,), r),
    ensures
        ({
            let before = old(s).inner().inner();
            let tune = old(s).inner().limits();
            let item = old(s).inner().pending()->0;
            let some = old(s).inner().pending() is Some;
            let len = item.bytes().len();
            let total = before@.len() + len;
            let to_file = len > 0 && total <= tune.max_body && (!before.in_ram() || total > tune.max_body_ram);
            let blocks = some && to_file;
            let step = r->Flush_0;
            let after = final(s).inner().inner();
            &&& !blocks ==> r is Flush && final(s).inner().pending() is None && final(s).inner().limits() == tune
            &&& !some ==> step is Ready && after == before
            &&& some && len == 0 ==> step is Ready && after == before
            &&& some && len > 0 && total > tune.max_body
                ==> (step matches FlushStep::Failed(FutioError::Body(BodyError::BodyTooLong(n))) && n
                == total && after == before)
            &&& some && len > 0 && total <= tune.max_body && before.in_ram()
                && total <= tune.max_body_ram
                ==> step is Ready && after.in_ram() && after@ == before@ + item.bytes()
            &&& final(s).waits() <==> blocks
            &&& blocks && old(s).inner().policy() is Permit
                ==> (r matches PermitFlush::Ask(p) && old(s).inner().policy() == BlockingPolicy::Permit(p))
            &&& blocks ==> after == before && final(s).inner().pending() == old(s).inner().pending()
        }),
{
}

/// A sink that dispatches is given away exactly if its item can only be written to a
/// file, with the item, and allowed to block once. Otherwise the item is sent as by
/// any sink.
pub proof fn law_dispatch_flush<B: InputBuf, F, S: Copy>(
    s: &mut DispatchBodySink<B, F, S>,
    r: DispatchFlush<B, F, S>,
)
    requires
        old(s).wf(),
        old(s).inner() is Some,
        (old(s).inner()->0.pending() matches Some(item)
            ==> old(s).inner()->0.inner()@.len() + item.bytes().len() <= u64::MAX),
        call_ensures(DispatchBodySink::<B, F, S>::poll_flush, (s,), r),
    ensures
        ({
            let before = old(s).inner()->0.inner();
            let tune = old(s).inner()->0.limits();
            let item = old(s).inner()->0.pending()->0;
            let some = old(s).inner()->0.pending() is Some;
            let len = item.bytes().len();
            let total = before@.len() + len;
            let to_file = len > 0 && total <= tune.max_body && (!before.in_ram() || total > tune.max_body_ram);
            let blocks = some && to_file;
            let step = r->Flush_0;
            let after = final(s).inner()->0.inner();
            &&& !blocks ==> r is Flush && final(s).inner()->0.pending() is None
                && final(s).inner()->0.limits() == tune
            &&& !some ==> step is Ready && after == before
            &&& some && len == 0 ==> step is Ready && after == before
            &&& some && len > 0 && total > tune.max_body
                ==> (step matches FlushStep::Failed(FutioError::Body(BodyError::BodyTooLong(n))) && n
                == total && after == before)
            &&& some && len > 0 && total <= tune.max_body && before.in_ram()
                && total <= tune.max_body_ram
                ==> step is Ready && after.in_ram() && after@ == before@ + item.bytes()
            &&& final(s).inner() is None <==> blocks
            &&& blocks ==> (r matches DispatchFlush::Dispatch(d) && d.inner() == before && d.limits()
                == tune && d.pending() == Some(item) && d.arbiter().state is Once)
        }),
{
}

/// Once the permit was granted the item is to be written: to a new file after all that
/// is in RAM, or to the end of the file. Until then nothing changes, and never if it
/// was canceled.
pub proof fn law_permit_sink_permit<B: InputBuf, F, S: Copy>(
    s: &mut PermitBodySink<B, F, S>,
    permit: WaitPoll,
    r: PermitFlush<B, S>,
)
    requires
        old(s).wf(),
        old(s).waits(),
        (old(s).inner().pending() matches Some(item)
            ==> old(s).inner().inner()@.len() + item.bytes().len() <= u64::MAX),
        call_ensures(PermitBodySink::<B, F, S>::permit_polled, (s, permit), r),
    ensures
        ({
            let before = old(s).inner().inner();
            let tune = old(s).inner().limits();
            let item = old(s).inner().pending()->0;
            let after = final(s).inner().inner();
            let step = r->Flush_0;
            &&& permit is Pending ==> *final(s) == *old(s) && (r matches PermitFlush::Flush(p) && p is Pending)
            &&& permit is Canceled ==> *final(s) == *old(s) && r is Canceled
            &&& permit is Ready ==> r is Flush && !final(s).waits() && final(s).inner().pending() is None
                && final(s).inner().limits() == tune
            &&& permit is Ready && before.in_ram()
                ==> (step matches FlushStep::Open(back, b) && back@ == before@ && b == item
                && after.in_ram() && after@ == Seq::<u8>::empty())
            &&& permit is Ready && !before.in_ram()
                ==> (step matches FlushStep::Append(b) && b == item && after == before)
        }),
{
}

/// A sink asks for a permit exactly if its pending item can only be written to a
/// file, and is not refused.
pub proof fn law_permit_is_needed<B: InputBuf, F, S: Copy>(s: PermitBodySink<B, F, S>, b: bool, waiting: bool)
    requires
        call_ensures(PermitBodySink::<B, F, S>::needs_permit, (&s,), b),
        call_ensures(PermitBodySink::<B, F, S>::is_waiting, (&s,), waiting),
    ensures
        waiting == s.waits(),
        s.inner().pending() is None ==> !b,
        s.inner().pending() matches Some(item) ==> {
            let body = s.inner().inner();
            let len = body@.len() + item.bytes().len();
            let tune = s.inner().limits();
            &&& item.bytes().len() == 0 ==> !b
            &&& len > tune.max_body ==> !b
            &&& body.in_ram() && len <= tune.max_body_ram ==> !b
            &&& item.bytes().len() > 0 && len <= tune.max_body && !body.in_ram() ==> b
            &&& item.bytes().len() > 0 && len <= tune.max_body && len > tune.max_body_ram ==> b
        },
{
}

/// New sinks with permits, and those that dispatch, are to the body they were made
/// with, and give it back. They take an item as any sink.
pub proof fn law_new_waiting_sinks<B: InputBuf, F, S: Copy>(
    body: BodySink<F>,
    tune: FutioTunables<S>,
    a: PermitBodySink<B, F, S>,
    b: DispatchBodySink<B, F, S>,
    first: BodySink<F>,
    second: Option<BodySink<F>>,
    dispatched: bool,
    p: &mut PermitBodySink<B, F, S>,
    d: &mut DispatchBodySink<B, F, S>,
    buf: B,
)
    requires
        call_ensures(PermitBodySink::<B, F, S>::new, (body, tune), a),
        call_ensures(DispatchBodySink::<B, F, S>::new, (body, tune), b),
        call_ensures(PermitBodySink::<B, F, S>::into_inner, (a,), first),
        call_ensures(DispatchBodySink::<B, F, S>::into_inner, (b,), second),
        call_ensures(DispatchBodySink::<B, F, S>::is_dispatched, (&b,), dispatched),
        call_ensures(PermitBodySink::<B, F, S>::start_send, (p, buf), ()),
        call_ensures(DispatchBodySink::<B, F, S>::start_send, (d, buf), ()),
    ensures
        first == body,
        second == Some(body),
        !dispatched,
        !a.waits(),
        a.inner().limits() == tune.image && a.inner().policy() == tune.blocking_policy,
        b.inner()->0.limits() == tune.image,
        a.inner().pending() is None && b.inner()->0.pending() is None,
        final(p).inner().pending() == Some(buf) && !final(p).waits(),
        final(p).inner().inner() == old(p).inner().inner() && final(p).inner().limits() == old(p).inner().limits(),
        final(d).inner() is Some && final(d).inner()->0.pending() == Some(buf),
        final(d).inner()->0.inner() == old(d).inner()->0.inner(),
        final(d).inner()->0.limits() == old(d).inner()->0.limits(),
{
}

/// A sink with permits goes on with a file and with what was written to it as any
/// sink does.
pub proof fn law_permit_sink_goes_on<B: InputBuf, F, S: Copy>(
    s: &mut PermitBodySink<B, F, S>,
    t: &mut PermitBodySink<B, F, S>,
    buf: B,
    back: WriteBack,
    file: F,
    handle: Option<&F>,
    same: Option<&F>,
)
    requires
        !old(t).inner().inner().in_ram(),
        call_ensures(PermitBodySink::<B, F, S>::opened, (s, back, file), ()),
        call_ensures(PermitBodySink::<B, F, S>::file, (&*final(s),), handle),
        call_ensures(PermitBodySink::<B, F, S>::written, (t, &buf), ()),
        call_ensures(PermitBodySink::<B, F, S>::file, (&*old(t),), same),
    ensures
        handle == Some(&file),
        final(s).inner().inner()@ == back@,
        final(s).inner().limits() == old(s).inner().limits() && final(s).inner().pending()
            == old(s).inner().pending(),
        same == Some(&old(t).inner().inner().the_file()),
        final(t).inner().inner().the_file() == old(t).inner().inner().the_file(),
        !final(t).inner().inner().in_ram(),
        final(t).inner().inner()@ == old(t).inner().inner()@ + buf.bytes(),
        final(t).inner().limits() == old(t).inner().limits() && final(t).inner().pending()
            == old(t).inner().pending(),
{
}

/// A sink that is dispatched comes back as it was handed over, and is waited for
/// until then. Its body cannot be had meanwhile.
pub proof fn law_dispatched_sink<B: InputBuf, F, S: Copy>(
    s: &mut DispatchBodySink<B, F, S>,
    poll: DispatchedSink<B, F, S>,
    r: Option<DispatchFlush<B, F, S>>,
    before: bool,
    after: bool,
    body: Option<BodySink<F>>,
)
    requires
        call_ensures(DispatchBodySink::<B, F, S>::is_dispatched, (&*old(s),), before),
        before,
        call_ensures(DispatchBodySink::<B, F, S>::into_inner, (*old(s),), body),
        call_ensures(DispatchBodySink::<B, F, S>::dispatch_polled, (s, poll), r),
        call_ensures(DispatchBodySink::<B, F, S>::is_dispatched, (&*final(s),), after),
    ensures
        body is None,
        poll is Pending ==> after && *final(s) == *old(s) && (r matches Some(DispatchFlush::Flush(f))
            && f is Pending),
        poll is Canceled ==> after && *final(s) == *old(s) && (r matches Some(c) && c is Canceled),
        poll matches DispatchedSink::Ready(sink) ==> !after && r is None && final(s).inner() == Some(sink),
{
}

/// What is made of the body of a sink is all that changes of the sink.
pub proof fn law_sink_body_changes<B: InputBuf, F, S: Copy, BA: BlockingArbiter>(
    s: &mut AsyncBodySink<B, F, S, BA>,
    r: &mut BodySink<F>,
)
    requires
        call_ensures(AsyncBodySink::<B, F, S, BA>::body_mut, (s,), r),
    ensures
        *old(r) == old(s).inner(),
        final(s).inner() == *final(r),
        final(s).limits() == old(s).limits(),
        final(s).pending() == old(s).pending(),
        final(s).arbiter() == old(s).arbiter(),
{
}

/// Whatever a sink does, its policy for blocking stays the same.
pub proof fn law_sink_keeps_policy<B: InputBuf, F, S: Copy>(
    a: &mut AsyncBodySink<B, F, S, StatefulArbiter>,
    b: &mut AsyncBodySink<B, F, S, StatefulArbiter>,
    c: &mut AsyncBodySink<B, F, S, StatefulArbiter>,
    d: &mut AsyncBodySink<B, F, S, StatefulArbiter>,
    e: &mut AsyncBodySink<B, F, S, StatefulArbiter>,
    p: &mut PermitBodySink<B, F, S>,
    q: &mut PermitBodySink<B, F, S>,
    s: &mut PermitBodySink<B, F, S>,
    buf: B,
    back: WriteBack,
    file: F,
    permit: WaitPoll,
    r: FlushStep<B>,
    t: FlushStep<B>,
    u: PermitFlush<B, S>,
    v: PermitFlush<B, S>,
)
    requires
        call_ensures(AsyncBodySink::<B, F, S, StatefulArbiter>::send, (a, buf), ()),
        call_ensures(AsyncBodySink::<B, F, S, StatefulArbiter>::poll_send, (b, buf), r),
        call_ensures(AsyncBodySink::<B, F, S, StatefulArbiter>::poll_flush_impl, (c,), t),
        call_ensures(AsyncBodySink::<B, F, S, StatefulArbiter>::opened, (d, back, file), ()),
        call_ensures(AsyncBodySink::<B, F, S, StatefulArbiter>::permit_once, (e,), ()),
        call_ensures(PermitBodySink::<B, F, S>::start_send, (p, buf), ()),
        call_ensures(PermitBodySink::<B, F, S>::poll_flush, (q,), u),
        call_ensures(PermitBodySink::<B, F, S>::permit_polled, (s, permit), v),
    ensures
        final(a).policy() == old(a).policy() && final(a).arbiter() == old(a).arbiter(),
        final(b).policy() == old(b).policy(),
        final(c).policy() == old(c).policy(),
        final(d).policy() == old(d).policy() && final(d).arbiter() == old(d).arbiter(),
        final(e).policy() == old(e).policy(),
        final(p).inner().policy() == old(p).inner().policy(),
        final(q).inner().policy() == old(q).inner().policy(),
        final(s).inner().policy() == old(s).inner().policy(),
{
}

} // verus!
