//! Reference counted byte buffers, and sequences of them.
//!
//! The buffers themselves are [`bytes::Bytes`]. What the library relies on of
//! that type is stated here, over [`bytes_content`] and [`bytes_mut_content`].
use bytes::{Bytes, BytesMut};
use vstd::prelude::*;

verus! {

/// `bytes::Bytes`, a cheaply cloned, contiguous run of bytes.
#[verifier::external_type_specification]
#[verifier::external_body]
pub struct ExBytes(Bytes);

/// `bytes::BytesMut`, a growable run of bytes.
#[verifier::external_type_specification]
#[verifier::external_body]
pub struct ExBytesMut(BytesMut);

/// The bytes that a `Bytes` holds.
pub uninterp spec fn bytes_content(b: Bytes) -> Seq<u8>;

/// The bytes that a `BytesMut` holds.
pub uninterp spec fn bytes_mut_content(b: BytesMut) -> Seq<u8>;

/// `Bytes::new` holds nothing.
pub assume_specification[ Bytes::new ]() -> (b: Bytes)
    ensures
        bytes_content(b) == Seq::<u8>::empty(),
;

/// `Bytes::len` is the number of bytes held.
pub assume_specification[ Bytes::len ](b: &Bytes) -> (n: usize)
    ensures
        n == bytes_content(*b).len(),
;

/// `Bytes::copy_from_slice` holds a copy of the slice.
pub assume_specification[ Bytes::copy_from_slice ](data: &[u8]) -> (b: Bytes)
    ensures
        bytes_content(b) == data@,
;

/// `Bytes::split_to` returns the first `at` bytes and leaves the others. It
/// panics where there are fewer than that.
pub assume_specification[ Bytes::split_to ](b: &mut Bytes, at: usize) -> (r: Bytes)
    requires
        at <= bytes_content(*old(b)).len(),
    ensures
        bytes_content(r) == bytes_content(*old(b)).take(at as int),
        bytes_content(*final(b)) == bytes_content(*old(b)).skip(at as int),
;

/// `<Bytes as Clone>::clone` shares the same bytes.
pub assume_specification[ <Bytes as Clone>::clone ](b: &Bytes) -> (r: Bytes)
    ensures
        bytes_content(r) == bytes_content(*b),
;

/// The bytes of a buffer as a slice, by `<Bytes as AsRef<[u8]>>::as_ref`.
#[verifier::external_body]
pub(crate) fn as_slice(b: &Bytes) -> (s: &[u8])
    ensures
        s@ == bytes_content(*b),
{
    b.as_ref()
}

/// A buffer that takes over a vector, by `<Bytes as From<Vec<u8>>>::from`.
#[verifier::external_body]
pub(crate) fn from_vec(v: Vec<u8>) -> (b: Bytes)
    ensures
        bytes_content(b) == v@,
{
    Bytes::from(v)
}

/// `BytesMut::with_capacity` holds nothing.
pub assume_specification[ BytesMut::with_capacity ](capacity: usize) -> (b: BytesMut)
    ensures
        bytes_mut_content(b) == Seq::<u8>::empty(),
;

/// `BytesMut::extend_from_slice` appends the slice.
pub assume_specification[ BytesMut::extend_from_slice ](b: &mut BytesMut, extend: &[u8])
    ensures
        bytes_mut_content(*final(b)) == bytes_mut_content(*old(b)) + extend@,
;

/// `BytesMut::freeze` holds the same bytes.
pub assume_specification[ BytesMut::freeze ](b: BytesMut) -> (r: Bytes)
    ensures
        bytes_content(r) == bytes_mut_content(b),
;

/// The concatenation of a sequence of buffers.
pub open spec fn joined(bufs: Seq<Bytes>) -> Seq<u8>
    decreases bufs.len(),
{
    if bufs.len() == 0 {
        Seq::empty()
    } else {
        joined(bufs.drop_last()) + bytes_content(bufs.last())
    }
}

/// Appending a buffer appends its bytes.
pub proof fn lemma_joined_push(bufs: Seq<Bytes>, b: Bytes)
    ensures
        joined(bufs.push(b)) == joined(bufs) + bytes_content(b),
{
    assert(bufs.push(b).drop_last() =~= bufs);
}

/// The concatenation of two runs of buffers.
pub proof fn lemma_joined_add(a: Seq<Bytes>, b: Seq<Bytes>)
    ensures
        joined(a + b) == joined(a) + joined(b),
    decreases b.len(),
{
    if b.len() == 0 {
        assert(a + b =~= a);
        assert(joined(a) + joined(b) =~= joined(a));
    } else {
        lemma_joined_add(a, b.drop_last());
        assert((a + b).drop_last() =~= a + b.drop_last());
        assert(joined(a + b) =~= joined(a) + joined(b));
    }
}

/// The first buffer comes first in the concatenation.
pub proof fn lemma_joined_first(bufs: Seq<Bytes>)
    requires
        bufs.len() > 0,
    ensures
        joined(bufs) == bytes_content(bufs[0]) + joined(bufs.skip(1)),
{
    assert(bufs =~= seq![bufs[0]] + bufs.skip(1));
    lemma_joined_add(seq![bufs[0]], bufs.skip(1));
    lemma_joined_push(Seq::empty(), bufs[0]);
    assert(Seq::<Bytes>::empty().push(bufs[0]) =~= seq![bufs[0]]);
    assert(joined(Seq::<Bytes>::empty()) + bytes_content(bufs[0]) =~= bytes_content(bufs[0]));
}

/// Where no buffer is empty, there are no more buffers than bytes.
pub proof fn lemma_joined_len(bufs: Seq<Bytes>)
    requires
        forall|i: int| 0 <= i < bufs.len() ==> bytes_content(#[trigger] bufs[i]).len() > 0,
    ensures
        bufs.len() <= joined(bufs).len(),
    decreases bufs.len(),
{
    if bufs.len() > 0 {
        lemma_joined_len(bufs.drop_last());
        assert(bytes_content(bufs[bufs.len() - 1]).len() > 0);
    }
}

/// Whether two runs of buffers hold the same bytes, buffer by buffer.
pub open spec fn same_parts(a: Seq<Bytes>, b: Seq<Bytes>) -> bool {
    &&& a.len() == b.len()
    &&& forall|i: int| 0 <= i < a.len() ==> bytes_content(#[trigger] a[i]) == bytes_content(b[i])
}

/// Zero or more non-empty buffers in RAM, with their total length.
pub struct Buffers {
    bufs: Vec<Bytes>,
    len: u64,
}

impl View for Buffers {
    type V = Seq<u8>;

    closed spec fn view(&self) -> Seq<u8> {
        joined(self.bufs@)
    }
}

impl Buffers {
    /// The length is that of the bytes, and no buffer is empty.
    #[verifier::type_invariant]
    spec fn inv(self) -> bool {
        &&& self.len == joined(self.bufs@).len()
        &&& forall|i: int| 0 <= i < self.bufs@.len() ==> bytes_content(#[trigger] self.bufs@[i]).len() > 0
    }

    /// The individual buffers.
    pub closed spec fn parts(&self) -> Seq<Bytes> {
        self.bufs@
    }

    /// The bytes are those of the individual buffers, one after the other.
    pub proof fn lemma_joined(&self)
        ensures
            self@ == joined(self.parts()),
    {
    }

    /// The bytes of a single buffer.
    pub proof fn lemma_single(&self)
        requires
            self.parts().len() == 1,
        ensures
            self@ == bytes_content(self.parts()[0]),
    {
        lemma_joined_first(self.parts());
        assert(self.parts().skip(1) =~= Seq::<Bytes>::empty());
        assert(bytes_content(self.parts()[0]) + Seq::<u8>::empty() =~= bytes_content(self.parts()[0]));
    }

    /// No buffers, with room for a number of them.
    pub fn with_capacity(capacity: usize) -> (r: Buffers)
        ensures
            r@ == Seq::<u8>::empty(),
            r.parts() == Seq::<Bytes>::empty(),
    {
        Buffers { bufs: Vec::with_capacity(capacity), len: 0 }
    }

    /// The total number of bytes.
    pub fn len(&self) -> (n: u64)
        ensures
            n == self@.len(),
    {
        proof {
            use_type_invariant(self);
        }
        self.len
    }

    /// The number of buffers.
    pub fn count(&self) -> (n: usize)
        ensures
            n == self.parts().len(),
            n <= self@.len() <= u64::MAX,
            n == 0 <==> self@.len() == 0,
    {
        proof {
            use_type_invariant(self);
            lemma_joined_len(self.bufs@);
        }
        self.bufs.len()
    }

    /// The buffer at the given position.
    pub fn part(&self, i: usize) -> (b: &Bytes)
        requires
            i < self.parts().len(),
        ensures
            *b == self.parts()[i as int],
            bytes_content(*b).len() > 0,
    {
        proof {
            use_type_invariant(self);
        }
        &self.bufs[i]
    }

    /// Append a buffer. An empty one is not kept.
    pub fn push(&mut self, buf: Bytes)
        requires
            old(self)@.len() + bytes_content(buf).len() <= u64::MAX,
        ensures
            final(self)@ == old(self)@ + bytes_content(buf),
            final(self).parts() == (if bytes_content(buf).len() == 0 {
                old(self).parts()
            } else {
                old(self).parts().push(buf)
            }),
    {
        proof {
            use_type_invariant(&*self);
            lemma_joined_push(self.bufs@, buf);
        }
        let n: usize = buf.len();
        if n > 0 {
            let mut whole = Buffers::with_capacity(0);
            core::mem::swap(&mut whole, self);
            let mut bufs = whole.bufs;
            bufs.push(buf);
            *self = Buffers { bufs, len: whole.len + n as u64 };
        } else {
            assert(self@ + bytes_content(buf) =~= self@);
        }
    }

    /// Append a copy of all the bytes to a vector.
    pub fn append_to(&self, out: &mut Vec<u8>)
        ensures
            final(out)@ == old(out)@ + self@,
    {
        let mut i: usize = 0;
        while i < self.bufs.len()
            invariant
                i <= self.bufs.len(),
                out@ == old(out)@ + joined(self.bufs@.take(i as int)),
            decreases self.bufs.len() - i,
        {
            proof {
                assert(self.bufs@.take(i + 1) =~= self.bufs@.take(i as int).push(self.bufs@[i as int]));
                lemma_joined_push(self.bufs@.take(i as int), self.bufs@[i as int]);
            }
            out.extend_from_slice(as_slice(&self.bufs[i]));
            i += 1;
        }
        assert(self.bufs@.take(i as int) =~= self.bufs@);
    }

    /// Copy all the bytes into one buffer.
    pub fn gathered(&self) -> (b: Bytes)
        ensures
            bytes_content(b) == self@,
    {
        let capacity: usize = if self.len <= usize::MAX as u64 { self.len as usize } else { 0 };
        let mut newb = BytesMut::with_capacity(capacity);
        let mut i: usize = 0;
        while i < self.bufs.len()
            invariant
                i <= self.bufs.len(),
                bytes_mut_content(newb) == joined(self.bufs@.take(i as int)),
            decreases self.bufs.len() - i,
        {
            proof {
                assert(self.bufs@.take(i + 1) =~= self.bufs@.take(i as int).push(self.bufs@[i as int]));
                lemma_joined_push(self.bufs@.take(i as int), self.bufs@[i as int]);
            }
            newb.extend_from_slice(as_slice(&self.bufs[i]));
            i += 1;
        }
        assert(self.bufs@.take(i as int) =~= self.bufs@);
        newb.freeze()
    }

    /// Give up the buffers themselves.
    pub fn into_parts(self) -> (v: Vec<Bytes>)
        ensures
            v@ == self.parts(),
            joined(v@) == self@,
            forall|i: int| 0 <= i < v@.len() ==> bytes_content(#[trigger] v@[i]).len() > 0,
            self@.len() <= u64::MAX,
    {
        proof {
            use_type_invariant(&self);
        }
        self.bufs
    }
}

impl Clone for Buffers {
    fn clone(&self) -> (r: Buffers)
        ensures
            r@ == self@,
            same_parts(r.parts(), self.parts()),
    {
        proof {
            use_type_invariant(self);
        }
        let mut bufs: Vec<Bytes> = Vec::with_capacity(self.bufs.len());
        let mut i: usize = 0;
        while i < self.bufs.len()
            invariant
                i <= self.bufs.len(),
                bufs.len() == i,
                joined(bufs@) == joined(self.bufs@.take(i as int)),
                forall|k: int|
                    0 <= k < i ==> bytes_content(#[trigger] bufs@[k]) == bytes_content(self.bufs@[k]),
            decreases self.bufs.len() - i,
        {
            let b = self.bufs[i].clone();
            proof {
                assert(self.bufs@.take(i + 1) =~= self.bufs@.take(i as int).push(self.bufs@[i as int]));
                lemma_joined_push(self.bufs@.take(i as int), self.bufs@[i as int]);
                lemma_joined_push(bufs@, b);
            }
            bufs.push(b);
            i += 1;
        }
        proof {
            assert(self.bufs@.take(i as int) =~= self.bufs@);
            assert forall|k: int| 0 <= k < bufs@.len() implies bytes_content(
                #[trigger] bufs@[k],
            ).len() > 0 by {
                assert(bytes_content(self.bufs@[k]).len() > 0);
            }
        }
        Buffers { bufs, len: self.len }
    }
}

/// Buffers that are new hold nothing.
pub proof fn law_no_buffers(capacity: usize, b: Buffers, all: Bytes, n: u64, count: usize)
    requires
        call_ensures(Buffers::with_capacity, (capacity,), b),
        call_ensures(Buffers::gathered, (&b,), all),
        call_ensures(Buffers::len, (&b,), n),
        call_ensures(Buffers::count, (&b,), count),
    ensures
        bytes_content(all) == Seq::<u8>::empty(),
        n == 0,
        count == 0,
{
}

/// A buffer that is appended comes after the bytes before. It counts as one more,
/// unless it is empty.
pub proof fn law_appended_buffer(
    b: &mut Buffers,
    buf: Bytes,
    before: Bytes,
    after: Bytes,
    n: u64,
    m: u64,
    count: usize,
    recount: usize,
)
    requires
        call_ensures(Buffers::gathered, (&*old(b),), before),
        call_ensures(Buffers::len, (&*old(b),), n),
        call_ensures(Buffers::count, (&*old(b),), count),
        call_ensures(Buffers::push, (b, buf), ()),
        call_ensures(Buffers::gathered, (&*final(b),), after),
        call_ensures(Buffers::len, (&*final(b),), m),
        call_ensures(Buffers::count, (&*final(b),), recount),
    ensures
        bytes_content(after) == bytes_content(before) + bytes_content(buf),
        n == bytes_content(before).len(),
        m == n + bytes_content(buf).len(),
        recount == (if bytes_content(buf).len() == 0 {
            count as int
        } else {
            count + 1
        }),
        bytes_content(buf).len() > 0 ==> old(b).parts().push(buf) == final(b).parts(),
        bytes_content(buf).len() == 0 ==> old(b).parts() == final(b).parts(),
{
}

/// The buffers are given up as they are, none of them empty, in their order.
pub proof fn law_buffers_given_up(b: Buffers, i: usize, part: &Bytes, count: usize, all: Vec<Bytes>)
    requires
        i < all@.len(),
        call_ensures(Buffers::part, (&b, i), part),
        call_ensures(Buffers::count, (&b,), count),
        call_ensures(Buffers::into_parts, (b,), all),
    ensures
        count == all@.len(),
        *part == all@[i as int],
        bytes_content(*part).len() > 0,
{
}

/// All that buffers hold is one buffer after the other. A copy of them holds the
/// same, in as many buffers, and so does what they append to a vector.
pub proof fn law_buffers_in_one(
    b: Buffers,
    all: Bytes,
    parts: Vec<Bytes>,
    copy: Buffers,
    other: Bytes,
    out: &mut Vec<u8>,
)
    requires
        call_ensures(Buffers::gathered, (&b,), all),
        call_ensures(Buffers::into_parts, (b,), parts),
        call_ensures(<Buffers as Clone>::clone, (&b,), copy),
        call_ensures(Buffers::gathered, (&copy,), other),
        call_ensures(Buffers::append_to, (&b, out), ()),
    ensures
        bytes_content(all) == joined(parts@),
        bytes_content(other) == bytes_content(all),
        copy.parts().len() == b.parts().len(),
        forall|i: int|
            0 <= i < b.parts().len() ==> bytes_content(#[trigger] copy.parts()[i]) == bytes_content(b.parts()[i]),
        final(out)@ == old(out)@ + bytes_content(all),
{
}

/// What buffers hold one after the other.
pub proof fn law_joined(a: Seq<Bytes>, b: Bytes, c: Seq<Bytes>)
    ensures
        joined(Seq::<Bytes>::empty()) == Seq::<u8>::empty(),
        joined(seq![b]) == bytes_content(b),
        joined(a + seq![b] + c) == joined(a) + bytes_content(b) + joined(c),
{
    lemma_joined_push(Seq::empty(), b);
    assert(Seq::<Bytes>::empty().push(b) =~= seq![b]);
    assert(joined(Seq::<Bytes>::empty()) + bytes_content(b) =~= bytes_content(b));
    lemma_joined_add(a, seq![b]);
    lemma_joined_add(a + seq![b], c);
}

} // verus!
