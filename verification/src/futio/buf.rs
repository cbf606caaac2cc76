//! Buffers that are the items of streams and sinks.
use bytes::Bytes;
use memmap::Mmap;
use olio::mem::MemHandle;
use vstd::prelude::*;

use crate::buf::{as_slice, bytes_content};

verus! {

/// A region of memory that holds a body, such as a memory map of its file.
pub trait Region: Sized {
    /// The bytes of the region.
    spec fn bytes(&self) -> Seq<u8>;

    /// The bytes of the region.
    fn region(&self) -> (r: &[u8])
        ensures
            r@ == self.bytes(),
    ;

    /// Another handle of the same region.
    fn share(&self) -> (r: Self)
        ensures
            r.bytes() == self.bytes(),
    ;
}

impl Region for Vec<u8> {
    open spec fn bytes(&self) -> Seq<u8> {
        self@
    }

    fn region(&self) -> &[u8] {
        self.as_slice()
    }

    fn share(&self) -> Vec<u8> {
        let mut v: Vec<u8> = Vec::with_capacity(0);
        v.extend_from_slice(self.as_slice());
        assert(v@ =~= self@);
        v
    }
}

impl Region for Bytes {
    open spec fn bytes(&self) -> Seq<u8> {
        bytes_content(*self)
    }

    fn region(&self) -> &[u8] {
        as_slice(self)
    }

    fn share(&self) -> Bytes {
        self.clone()
    }
}

/// `memmap::Mmap`, a memory map of a file.
#[verifier::external_type_specification]
#[verifier::external_body]
pub struct ExMmap(Mmap);

/// `olio::mem::MemHandle`, a shared handle of a memory region.
#[verifier::external_type_specification]
#[verifier::external_body]
#[verifier::reject_recursive_types(T)]
pub struct ExMemHandle<T: std::ops::Deref<Target = [u8]>>(MemHandle<T>);

/// The bytes of a memory map, which whoever makes a map of a file has to see to
/// it that they do not change.
pub uninterp spec fn map_content(m: MemHandle<Mmap>) -> Seq<u8>;

/// The bytes of a memory map, by `<MemHandle as Deref>::deref`.
#[verifier::external_body]
fn map_slice(m: &MemHandle<Mmap>) -> (r: &[u8])
    ensures
        r@ == map_content(*m),
{
    m
}

/// Another handle of a memory map, by `<MemHandle as Clone>::clone`, which shares
/// the map.
#[verifier::external_body]
fn share_map(m: &MemHandle<Mmap>) -> (r: MemHandle<Mmap>)
    ensures
        map_content(r) == map_content(*m),
{
    m.clone()
}

impl Region for MemHandle<Mmap> {
    open spec fn bytes(&self) -> Seq<u8> {
        map_content(*self)
    }

    fn region(&self) -> &[u8] {
        map_slice(self)
    }

    fn share(&self) -> MemHandle<Mmap> {
        share_map(self)
    }
}

/// A part of a region that is consumed from its start.
#[derive(Debug)]
pub struct MemMapBuf<M: Region> {
    mm: M,
    pos: usize,
    len: usize,
}

impl<M: Region> View for MemMapBuf<M> {
    type V = Seq<u8>;

    /// The bytes not consumed yet.
    closed spec fn view(&self) -> Seq<u8> {
        self.mm.bytes().subrange(self.pos as int, self.len as int)
    }
}

impl<M: Region> MemMapBuf<M> {
    /// The part is within the region.
    #[verifier::type_invariant]
    spec fn inv(self) -> bool {
        self.pos <= self.len <= self.mm.bytes().len()
    }

    /// All of a region.
    pub fn new(mmap: M) -> (r: MemMapBuf<M>)
        ensures
            r@ == mmap.bytes(),
    {
        let len: usize = mmap.region().len();
        let r = MemMapBuf { mm: mmap, pos: 0, len };
        assert(r@ =~= mmap.bytes());
        r
    }

    /// The number of bytes not consumed yet.
    pub fn remaining(&self) -> (n: usize)
        ensures
            n == self@.len(),
    {
        proof {
            use_type_invariant(self);
        }
        self.len - self.pos
    }

    /// The bytes not consumed yet.
    pub fn chunk(&self) -> (r: &[u8])
        ensures
            r@ == self@,
    {
        proof {
            use_type_invariant(self);
        }
        vstd::slice::slice_subrange(self.mm.region(), self.pos, self.len)
    }

    /// Consume some bytes, of which there must be as many.
    pub fn advance(&mut self, rel: usize)
        requires
            rel <= old(self)@.len(),
        ensures
            final(self)@ == old(self)@.skip(rel as int),
    {
        proof {
            use_type_invariant(&*self);
        }
        self.pos = self.pos + rel;
        assert(self@ =~= old(self)@.skip(rel as int));
    }

    /// Split in two at some index, neither at the start nor at the end. The
    /// leading part is returned, and the other is kept.
    pub fn split_to(&mut self, rel: usize) -> (r: MemMapBuf<M>)
        requires
            0 < rel < old(self)@.len(),
        ensures
            r@ == old(self)@.take(rel as int),
            final(self)@ == old(self)@.skip(rel as int),
    {
        proof {
            use_type_invariant(&*self);
        }
        let abs: usize = self.pos + rel;
        let r = MemMapBuf { mm: self.mm.share(), pos: self.pos, len: abs };
        self.pos = abs;
        assert(self@ =~= old(self)@.skip(rel as int));
        assert(r@ =~= old(self)@.take(rel as int));
        r
    }
}

#[derive(Debug)]
enum BufState<M: Region> {
    Buf(Bytes),
    MemMap(MemMapBuf<M>),
}

/// Access, without a copy, to the bytes of a buffer or of a memory map.
#[derive(Debug)]
pub struct UniBodyBuf<M: Region> {
    buf: BufState<M>,
}

impl<M: Region> View for UniBodyBuf<M> {
    type V = Seq<u8>;

    /// The bytes not consumed yet.
    closed spec fn view(&self) -> Seq<u8> {
        match self.buf {
            BufState::Buf(b) => bytes_content(b),
            BufState::MemMap(b) => b@,
        }
    }
}

impl<M: Region> UniBodyBuf<M> {
    /// Whether the bytes are in a memory map.
    pub closed spec fn in_map(&self) -> bool {
        self.buf is MemMap
    }

    /// The bytes of a buffer.
    pub fn from_bytes(b: Bytes) -> (r: UniBodyBuf<M>)
        ensures
            r@ == bytes_content(b),
            !r.in_map(),
    {
        UniBodyBuf { buf: BufState::Buf(b) }
    }

    /// No bytes.
    pub fn empty() -> (r: UniBodyBuf<M>)
        ensures
            r@ == Seq::<u8>::empty(),
            !r.in_map(),
    {
        UniBodyBuf::from_bytes(Bytes::new())
    }

    /// The bytes of a part of a memory map.
    pub fn from_mmap(mb: MemMapBuf<M>) -> (r: UniBodyBuf<M>)
        ensures
            r@ == mb@,
            r.in_map(),
    {
        UniBodyBuf { buf: BufState::MemMap(mb) }
    }

    /// The number of bytes not consumed yet.
    pub fn remaining(&self) -> (n: usize)
        ensures
            n == self@.len(),
    {
        match &self.buf {
            BufState::Buf(b) => b.len(),
            BufState::MemMap(b) => b.remaining(),
        }
    }

    /// The bytes not consumed yet.
    pub fn chunk(&self) -> (r: &[u8])
        ensures
            r@ == self@,
    {
        match &self.buf {
            BufState::Buf(b) => as_slice(b),
            BufState::MemMap(b) => b.chunk(),
        }
    }

    /// Consume some bytes, of which there must be as many.
    pub fn advance(&mut self, count: usize)
        requires
            count <= old(self)@.len(),
        ensures
            final(self)@ == old(self)@.skip(count as int),
            final(self).in_map() == old(self).in_map(),
    {
        match &mut self.buf {
            BufState::Buf(b) => {
                let _ = b.split_to(count);
            },
            BufState::MemMap(b) => b.advance(count),
        }
    }

    /// If there are more than `max` bytes, split off and return the first `max`
    /// of them.
    pub fn split_if(&mut self, max: usize) -> (r: Option<UniBodyBuf<M>>)
        requires
            old(self).in_map() ==> max > 0,
        ensures
            r is Some == (old(self)@.len() > max),
            r is Some ==> {
                &&& r->0@ == old(self)@.take(max as int)
                &&& r->0.in_map() == old(self).in_map()
                &&& final(self)@ == old(self)@.skip(max as int)
                &&& final(self).in_map() == old(self).in_map()
            },
            r is None ==> *final(self) == *old(self),
    {
        if self.remaining() > max {
            match &mut self.buf {
                BufState::Buf(b) => Some(UniBodyBuf { buf: BufState::Buf(b.split_to(max)) }),
                BufState::MemMap(b) => Some(UniBodyBuf { buf: BufState::MemMap(b.split_to(max)) }),
            }
        } else {
            None
        }
    }

    /// A buffer of the bytes. They are copied only if they are in a memory map.
    pub fn into_bytes(self) -> (b: Bytes)
        ensures
            bytes_content(b) == self@,
    {
        match self.buf {
            BufState::Buf(b) => b,
            BufState::MemMap(mb) => Bytes::copy_from_slice(mb.chunk()),
        }
    }
}

/// What a sink needs of its items.
pub trait InputBuf: Sized {
    /// The bytes of the buffer.
    spec fn bytes(&self) -> Seq<u8>;

    /// The number of bytes.
    fn remaining(&self) -> (n: usize)
        ensures
            n == self.bytes().len(),
    ;

    /// The bytes.
    fn chunk(&self) -> (r: &[u8])
        ensures
            r@ == self.bytes(),
    ;

    /// A buffer of the bytes.
    fn into_bytes(self) -> (b: Bytes)
        ensures
            bytes_content(b) == self.bytes(),
    ;
}

impl InputBuf for Bytes {
    open spec fn bytes(&self) -> Seq<u8> {
        bytes_content(*self)
    }

    fn remaining(&self) -> usize {
        self.len()
    }

    fn chunk(&self) -> &[u8] {
        as_slice(self)
    }

    fn into_bytes(self) -> Bytes {
        self
    }
}

impl<M: Region> InputBuf for UniBodyBuf<M> {
    open spec fn bytes(&self) -> Seq<u8> {
        self@
    }

    fn remaining(&self) -> usize {
        UniBodyBuf::remaining(self)
    }

    fn chunk(&self) -> &[u8] {
        UniBodyBuf::chunk(self)
    }

    fn into_bytes(self) -> Bytes {
        UniBodyBuf::into_bytes(self)
    }
}

/// What a stream needs of its items: they can be made of a buffer or of a
/// memory map.
pub trait OutputBuf<M: Region>: Sized {
    /// The bytes of the item.
    spec fn bytes(&self) -> Seq<u8>;

    /// An item of the bytes of a buffer.
    fn from_buf(b: Bytes) -> (r: Self)
        ensures
            r.bytes() == bytes_content(b),
    ;

    /// An item of the bytes of a memory map.
    fn from_mmap(mmap: M) -> (r: Self)
        ensures
            r.bytes() == mmap.bytes(),
    ;
}

impl<M: Region> OutputBuf<M> for Bytes {
    open spec fn bytes(&self) -> Seq<u8> {
        bytes_content(*self)
    }

    fn from_buf(b: Bytes) -> Bytes {
        b
    }

    fn from_mmap(mmap: M) -> Bytes {
        Bytes::copy_from_slice(mmap.region())
    }
}

impl<M: Region> OutputBuf<M> for UniBodyBuf<M> {
    open spec fn bytes(&self) -> Seq<u8> {
        self@
    }

    fn from_buf(b: Bytes) -> UniBodyBuf<M> {
        UniBodyBuf::from_bytes(b)
    }

    fn from_mmap(mmap: M) -> UniBodyBuf<M> {
        UniBodyBuf { buf: BufState::MemMap(MemMapBuf::new(mmap)) }
    }
}

/// The pieces of some bytes that are split at most `max` bytes at a time.
pub open spec fn pieces(s: Seq<u8>, max: nat) -> Seq<Seq<u8>>
    decreases s.len(),
{
    if max > 0 && s.len() > max {
        seq![s.take(max as int)] + pieces(s.skip(max as int), max)
    } else {
        seq![s]
    }
}

/// The concatenation of some pieces.
pub open spec fn pieces_joined(p: Seq<Seq<u8>>) -> Seq<u8>
    decreases p.len(),
{
    if p.len() == 0 {
        Seq::empty()
    } else {
        p[0] + pieces_joined(p.skip(1))
    }
}

/// A buffer that is split as long as it has more than `max` bytes gives pieces
/// of no more than that, none of them empty unless the buffer is, and they are
/// together the buffer.
pub proof fn law_split_pieces(s: Seq<u8>, max: nat, i: int)
    requires
        max > 0,
        0 <= i < pieces(s, max).len(),
    ensures
        pieces_joined(pieces(s, max)) == s,
        pieces(s, max)[i].len() <= max,
        s.len() > 0 ==> pieces(s, max)[i].len() > 0,
    decreases s.len(),
{
    let p = pieces(s, max);
    if s.len() > max {
        let rest = pieces(s.skip(max as int), max);
        assert(p.skip(1) =~= rest);
        if i > 0 {
            law_split_pieces(s.skip(max as int), max, i - 1);
        } else {
            law_split_pieces(s.skip(max as int), max, 0);
        }
        assert(s.take(max as int) + s.skip(max as int) =~= s);
    } else {
        reveal_with_fuel(pieces_joined, 2);
        assert(p.skip(1) =~= Seq::<Seq<u8>>::empty());
        assert(s + Seq::<u8>::empty() =~= s);
    }
}

/// The bytes of a region, and of another handle of it, whatever it is.
pub proof fn law_regions<M: Region>(m: M, r: &[u8], other: M, same: &[u8])
    requires
        call_ensures(M::region, (&m,), r),
        call_ensures(M::share, (&m,), other),
        call_ensures(M::region, (&other,), same),
    ensures
        same@ == r@,
{
}

/// The bytes of a region that is a vector, a buffer or a memory map are what that
/// holds.
pub proof fn law_region_bytes(
    v: Vec<u8>,
    b: Bytes,
    m: MemHandle<Mmap>,
    r: &[u8],
    s: &[u8],
    t: &[u8],
    w: Vec<u8>,
    c: Bytes,
    n: MemHandle<Mmap>,
)
    requires
        call_ensures(<Vec<u8> as Region>::region, (&v,), r),
        call_ensures(<Bytes as Region>::region, (&b,), s),
        call_ensures(<MemHandle<Mmap> as Region>::region, (&m,), t),
        call_ensures(<Vec<u8> as Region>::share, (&v,), w),
        call_ensures(<Bytes as Region>::share, (&b,), c),
        call_ensures(<MemHandle<Mmap> as Region>::share, (&m,), n),
    ensures
        r@ == v@,
        s@ == bytes_content(b),
        t@ == map_content(m),
        w@ == v@,
        bytes_content(c) == bytes_content(b),
        map_content(n) == map_content(m),
{
}

/// A part of a region starts as all of it. What is consumed is no longer in it, and
/// the rest is.
pub proof fn law_region_is_consumed<M: Region>(
    m: M,
    b: &mut MemMapBuf<M>,
    rel: usize,
    n: usize,
    left: usize,
    whole: &[u8],
    rest: &[u8],
)
    requires
        call_ensures(MemMapBuf::<M>::new, (m,), *old(b)),
        rel <= m.bytes().len(),
        call_ensures(MemMapBuf::<M>::remaining, (&*old(b),), n),
        call_ensures(MemMapBuf::<M>::chunk, (&*old(b),), whole),
        call_ensures(MemMapBuf::<M>::advance, (b, rel), ()),
        call_ensures(MemMapBuf::<M>::remaining, (&*final(b),), left),
        call_ensures(MemMapBuf::<M>::chunk, (&*final(b),), rest),
    ensures
        whole@ == m.bytes(),
        n == m.bytes().len(),
        rest@ == m.bytes().skip(rel as int),
        left == n - rel,
{
}

/// The two parts of a region that is split are what it was, one after the other.
pub proof fn law_region_is_split<M: Region>(
    b: &mut MemMapBuf<M>,
    rel: usize,
    r: MemMapBuf<M>,
    whole: &[u8],
    first: &[u8],
    rest: &[u8],
)
    requires
        call_ensures(MemMapBuf::<M>::chunk, (&*old(b),), whole),
        0 < rel < whole@.len(),
        call_ensures(MemMapBuf::<M>::split_to, (b, rel), r),
        call_ensures(MemMapBuf::<M>::chunk, (&r,), first),
        call_ensures(MemMapBuf::<M>::chunk, (&*final(b),), rest),
    ensures
        first@.len() == rel,
        first@ + rest@ == whole@,
{
    assert(whole@.take(rel as int) + whole@.skip(rel as int) =~= whole@);
}

/// A buffer holds the bytes it was made of, from RAM or from a map, and gives them
/// as a slice and as a buffer in RAM.
pub proof fn law_new_body_bufs<M: Region>(
    bytes: Bytes,
    m: M,
    mb: MemMapBuf<M>,
    a: UniBodyBuf<M>,
    b: UniBodyBuf<M>,
    e: UniBodyBuf<M>,
    x: UniBodyBuf<M>,
    n: usize,
    chunk: &[u8],
    back: Bytes,
)
    requires
        call_ensures(MemMapBuf::<M>::new, (m,), mb),
        call_ensures(UniBodyBuf::<M>::from_bytes, (bytes,), a),
        call_ensures(UniBodyBuf::<M>::from_mmap, (mb,), b),
        call_ensures(UniBodyBuf::<M>::empty, (), e),
        x == a || x == b || x == e,
        call_ensures(UniBodyBuf::<M>::remaining, (&x,), n),
        call_ensures(UniBodyBuf::<M>::chunk, (&x,), chunk),
        call_ensures(UniBodyBuf::<M>::into_bytes, (x,), back),
    ensures
        x == a ==> chunk@ == bytes_content(bytes),
        x == b ==> chunk@ == m.bytes(),
        x == e ==> chunk@ == Seq::<u8>::empty(),
        n == chunk@.len(),
        bytes_content(back) == chunk@,
        !a.in_map() && b.in_map() && !e.in_map(),
{
}

/// What is consumed of a buffer is no longer in it. If it has more bytes than asked
/// for it is split, and the two parts are what it was. Otherwise nothing changes.
pub proof fn law_body_buf_is_consumed<M: Region>(
    b: &mut UniBodyBuf<M>,
    c: &mut UniBodyBuf<M>,
    count: usize,
    max: usize,
    r: Option<UniBodyBuf<M>>,
    whole: &[u8],
    left: &[u8],
    other: &[u8],
    first: &[u8],
    rest: &[u8],
)
    requires
        call_ensures(UniBodyBuf::<M>::chunk, (&*old(b),), whole),
        count <= whole@.len(),
        call_ensures(UniBodyBuf::<M>::advance, (b, count), ()),
        call_ensures(UniBodyBuf::<M>::chunk, (&*final(b),), left),
        call_ensures(UniBodyBuf::<M>::chunk, (&*old(c),), other),
        call_ensures(UniBodyBuf::<M>::split_if, (c, max), r),
        call_ensures(UniBodyBuf::<M>::chunk, (&*final(c),), rest),
        r is Some ==> call_ensures(UniBodyBuf::<M>::chunk, (&r->0,), first),
    ensures
        left@ == whole@.skip(count as int),
        r is Some <==> other@.len() > max,
        r is Some ==> first@.len() == max && first@ + rest@ == other@,
        r is Some ==> (r->0.in_map() <==> old(c).in_map()),
        r is None ==> *final(c) == *old(c),
{
    if r is Some {
        assert(other@.take(max as int) + other@.skip(max as int) =~= other@);
    }
}

/// Items of sinks and streams hold the bytes of the buffer or the map they are made
/// of.
pub proof fn law_items<M: Region>(
    b: Bytes,
    m: M,
    u: UniBodyBuf<M>,
    n: usize,
    k: usize,
    chunk: &[u8],
    part: &[u8],
    same: Bytes,
    copy: Bytes,
    from_buf: Bytes,
    from_map: Bytes,
    of_buf: UniBodyBuf<M>,
    of_map: UniBodyBuf<M>,
)
    requires
        call_ensures(<Bytes as InputBuf>::remaining, (&b,), n),
        call_ensures(<Bytes as InputBuf>::chunk, (&b,), chunk),
        call_ensures(<Bytes as InputBuf>::into_bytes, (b,), same),
        call_ensures(<UniBodyBuf<M> as InputBuf>::remaining, (&u,), k),
        call_ensures(<UniBodyBuf<M> as InputBuf>::chunk, (&u,), part),
        call_ensures(<UniBodyBuf<M> as InputBuf>::into_bytes, (u,), copy),
        call_ensures(<Bytes as OutputBuf<M>>::from_buf, (b,), from_buf),
        call_ensures(<Bytes as OutputBuf<M>>::from_mmap, (m,), from_map),
        call_ensures(<UniBodyBuf<M> as OutputBuf<M>>::from_buf, (b,), of_buf),
        call_ensures(<UniBodyBuf<M> as OutputBuf<M>>::from_mmap, (m,), of_map),
    ensures
        chunk@ == bytes_content(b),
        n == bytes_content(b).len(),
        bytes_content(same) == bytes_content(b),
        part@ == u@,
        k == u@.len(),
        bytes_content(copy) == u@,
        bytes_content(from_buf) == bytes_content(b),
        bytes_content(from_map) == m.bytes(),
        of_buf@ == bytes_content(b),
        of_map@ == m.bytes(),
{
}

} // verus!
