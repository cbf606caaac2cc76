//! Construction of streams and sinks of any kind.
use vstd::prelude::*;

use crate::blocking::LenientArbiter;
use crate::body::{BodyImage, BodySink};
use crate::futio::buf::{InputBuf, Region};
use crate::futio::sink::{AsyncBodySink, DispatchBodySink, PermitBodySink};
use crate::futio::stream::{is_source, AsyncBodyImage, DispatchBodyImage, PermitBodyImage, StreamView};
use crate::futio::uni::{AsyncUniBody, UniBodyImage, UniBodySink};
use crate::tune::{FutioTunables, Tunables};

verus! {

/// Construction of a stream of any kind.
pub trait StreamWrapper<F, M: Region, S: Copy>: Sized {
    /// What is known of the stream.
    spec fn state(&self) -> StreamView<F, M>;

    /// A stream of a body.
    fn wrap(body: BodyImage<F, M>, tune: FutioTunables<S>) -> (r: Self)
        requires
            body.in_map() ==> body.the_map().bytes().len() == body@.len(),
        ensures
            r.state().body == body@,
            r.state().emitted == Seq::<u8>::empty(),
            r.state().buffer_size == tune.image.buffer_size_fs,
            is_source(body, r.state().source),
    ;
}

impl<F, M: Region, S: Copy> StreamWrapper<F, M, S> for AsyncBodyImage<F, M, S, LenientArbiter> {
    open spec fn state(&self) -> StreamView<F, M> {
        self@
    }

    fn wrap(body: BodyImage<F, M>, tune: FutioTunables<S>) -> Self {
        AsyncBodyImage::new(body, tune)
    }
}

impl<F, M: Region, S: Copy> StreamWrapper<F, M, S> for PermitBodyImage<F, M, S> {
    open spec fn state(&self) -> StreamView<F, M> {
        self.stream()@
    }

    fn wrap(body: BodyImage<F, M>, tune: FutioTunables<S>) -> Self {
        PermitBodyImage::new(body, tune)
    }
}

impl<F, M: Region, S: Copy> StreamWrapper<F, M, S> for DispatchBodyImage<F, M, S> {
    open spec fn state(&self) -> StreamView<F, M> {
        self.stream()->0@
    }

    fn wrap(body: BodyImage<F, M>, tune: FutioTunables<S>) -> Self {
        DispatchBodyImage::new(body, tune)
    }
}

impl<F, M: Region, S: Copy> StreamWrapper<F, M, S> for UniBodyImage<F, M, S> {
    open spec fn state(&self) -> StreamView<F, M> {
        self.stream()->0@
    }

    fn wrap(body: BodyImage<F, M>, tune: FutioTunables<S>) -> Self {
        UniBodyImage::new(body, tune)
    }
}

impl<F, M: Region, S: Copy> StreamWrapper<F, M, S> for AsyncUniBody<F, M, S> {
    open spec fn state(&self) -> StreamView<F, M> {
        self.stream()@
    }

    fn wrap(body: BodyImage<F, M>, tune: FutioTunables<S>) -> Self {
        AsyncUniBody::new(body, tune)
    }
}

/// Construction of a sink of any kind, and what becomes of it.
pub trait SinkWrapper<B: InputBuf, F, S: Copy>: Sized {
    /// The body that is written to, unless it is elsewhere.
    spec fn target(&self) -> Option<BodySink<F>>;

    /// The limits for the body.
    spec fn body_limits(&self) -> Tunables;

    /// A sink to a body.
    fn wrap(body: BodySink<F>, tune: FutioTunables<S>) -> (r: Self)
        ensures
            r.target() == Some(body),
            r.body_limits() == tune.image,
    ;

    /// The body that was written to. `None` while another thread writes to it.
    fn unwrap_sink(self) -> (r: Option<BodySink<F>>)
        ensures
            r == self.target(),
    ;
}

impl<B: InputBuf, F, S: Copy> SinkWrapper<B, F, S> for AsyncBodySink<B, F, S, LenientArbiter> {
    open spec fn target(&self) -> Option<BodySink<F>> {
        Some(self.inner())
    }

    open spec fn body_limits(&self) -> Tunables {
        self.limits()
    }

    fn wrap(body: BodySink<F>, tune: FutioTunables<S>) -> Self {
        AsyncBodySink::new(body, tune)
    }

    fn unwrap_sink(self) -> Option<BodySink<F>> {
        Some(self.into_inner())
    }
}

impl<B: InputBuf, F, S: Copy> SinkWrapper<B, F, S> for PermitBodySink<B, F, S> {
    open spec fn target(&self) -> Option<BodySink<F>> {
        Some(self.inner().inner())
    }

    open spec fn body_limits(&self) -> Tunables {
        self.inner().limits()
    }

    fn wrap(body: BodySink<F>, tune: FutioTunables<S>) -> Self {
        PermitBodySink::new(body, tune)
    }

    fn unwrap_sink(self) -> Option<BodySink<F>> {
        Some(self.into_inner())
    }
}

impl<B: InputBuf, F, S: Copy> SinkWrapper<B, F, S> for DispatchBodySink<B, F, S> {
    open spec fn target(&self) -> Option<BodySink<F>> {
        match self.inner() {
            Some(s) => Some(s.inner()),
            None => None,
        }
    }

    open spec fn body_limits(&self) -> Tunables {
        self.inner()->0.limits()
    }

    fn wrap(body: BodySink<F>, tune: FutioTunables<S>) -> Self {
        DispatchBodySink::new(body, tune)
    }

    fn unwrap_sink(self) -> Option<BodySink<F>> {
        self.into_inner()
    }
}

impl<B: InputBuf, F, S: Copy> SinkWrapper<B, F, S> for UniBodySink<B, F, S> {
    open spec fn target(&self) -> Option<BodySink<F>> {
        match self.inner() {
            Some(s) => Some(s.inner()),
            None => None,
        }
    }

    open spec fn body_limits(&self) -> Tunables {
        self.inner()->0.limits()
    }

    fn wrap(body: BodySink<F>, tune: FutioTunables<S>) -> Self {
        UniBodySink::new(body, tune)
    }

    fn unwrap_sink(self) -> Option<BodySink<F>> {
        self.into_inner()
    }
}

/// A stream of any kind is that of the body, and starts where one of its own kind
/// does.
pub proof fn law_wrapped_streams<F, M: Region, S: Copy>(
    body: BodyImage<F, M>,
    tune: FutioTunables<S>,
    a: AsyncBodyImage<F, M, S, LenientArbiter>,
    b: AsyncBodyImage<F, M, S, LenientArbiter>,
    c: PermitBodyImage<F, M, S>,
    d: DispatchBodyImage<F, M, S>,
    e: UniBodyImage<F, M, S>,
    f: AsyncUniBody<F, M, S>,
)
    requires
        body.in_map() ==> body.the_map().bytes().len() == body@.len(),
        call_ensures(AsyncBodyImage::<F, M, S, LenientArbiter>::new, (body, tune), a),
        call_ensures(<AsyncBodyImage<F, M, S, LenientArbiter> as StreamWrapper<F, M, S>>::wrap, (body, tune), b),
        call_ensures(<PermitBodyImage<F, M, S> as StreamWrapper<F, M, S>>::wrap, (body, tune), c),
        call_ensures(<DispatchBodyImage<F, M, S> as StreamWrapper<F, M, S>>::wrap, (body, tune), d),
        call_ensures(<UniBodyImage<F, M, S> as StreamWrapper<F, M, S>>::wrap, (body, tune), e),
        call_ensures(<AsyncUniBody<F, M, S> as StreamWrapper<F, M, S>>::wrap, (body, tune), f),
    ensures
        a@.body == body@,
        a@.emitted == Seq::<u8>::empty(),
        b@ == a@,
        c.stream()@ == a@,
        d.stream()->0@ == a@,
        e.stream()->0@ == a@,
        f.stream()@ == a@,
{
    body.lemma_one_state();
}

/// A sink of any kind is to the body and with the limits that it was made with, and
/// gives that body back.
pub proof fn law_wrapped_sinks<B: InputBuf, F, S: Copy>(
    body: BodySink<F>,
    tune: FutioTunables<S>,
    a: AsyncBodySink<B, F, S, LenientArbiter>,
    b: PermitBodySink<B, F, S>,
    c: DispatchBodySink<B, F, S>,
    d: UniBodySink<B, F, S>,
    p: Option<BodySink<F>>,
    q: Option<BodySink<F>>,
    r: Option<BodySink<F>>,
    s: Option<BodySink<F>>,
)
    requires
        call_ensures(<AsyncBodySink<B, F, S, LenientArbiter> as SinkWrapper<B, F, S>>::wrap, (body, tune), a),
        call_ensures(<PermitBodySink<B, F, S> as SinkWrapper<B, F, S>>::wrap, (body, tune), b),
        call_ensures(<DispatchBodySink<B, F, S> as SinkWrapper<B, F, S>>::wrap, (body, tune), c),
        call_ensures(<UniBodySink<B, F, S> as SinkWrapper<B, F, S>>::wrap, (body, tune), d),
        call_ensures(<AsyncBodySink<B, F, S, LenientArbiter> as SinkWrapper<B, F, S>>::unwrap_sink, (a,), p),
        call_ensures(<PermitBodySink<B, F, S> as SinkWrapper<B, F, S>>::unwrap_sink, (b,), q),
        call_ensures(<DispatchBodySink<B, F, S> as SinkWrapper<B, F, S>>::unwrap_sink, (c,), r),
        call_ensures(<UniBodySink<B, F, S> as SinkWrapper<B, F, S>>::unwrap_sink, (d,), s),
    ensures
        p == Some(body),
        q == Some(body),
        r == Some(body),
        s == Some(body),
        a.limits() == tune.image,
        b.inner().limits() == tune.image,
        c.inner()->0.limits() == tune.image,
        d.inner()->0.limits() == tune.image,
{
}

} // verus!
