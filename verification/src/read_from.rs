//! Reading a body from an input of unknown length.
//!
//! The input is read by its owner, buffer by buffer. What becomes of each buffer
//! is decided here: it is kept in RAM as long as the limits allow, and otherwise
//! written to a temporary file.
use bytes::Bytes;
use vstd::prelude::*;

use crate::body::{BodyError, BodyImage, BodyPlan, BodySink, WriteBack};
use crate::buf::{as_slice, bytes_content, Buffers};
use crate::tune::Tunables;

verus! {

/// What the next buffer makes of the bytes so far: more bytes, or the length at
/// which they are found to be too many.
pub open spec fn accept(so_far: Seq<u8>, next: Seq<u8>, max_body: u64) -> Result<Seq<u8>, int> {
    if next.len() > 0 && so_far.len() + next.len() > max_body {
        Err((so_far.len() + next.len()) as int)
    } else {
        Ok(so_far + next)
    }
}

/// What a whole input makes of the bytes so far.
pub open spec fn accept_all(so_far: Seq<u8>, chunks: Seq<Seq<u8>>, max_body: u64) -> Result<Seq<u8>, int>
    decreases chunks.len(),
{
    if chunks.len() == 0 {
        Ok(so_far)
    } else {
        match accept(so_far, chunks[0], max_body) {
            Ok(s) => accept_all(s, chunks.skip(1), max_body),
            Err(l) => Err(l),
        }
    }
}

/// All of an input, whatever the buffers that it came in.
pub open spec fn concatenated(chunks: Seq<Seq<u8>>) -> Seq<u8>
    decreases chunks.len(),
{
    if chunks.len() == 0 {
        Seq::empty()
    } else {
        chunks[0] + concatenated(chunks.skip(1))
    }
}

/// An input is accepted exactly if its total length is within the limit, and
/// then the body is all of it, in order. How it was cut into buffers makes no
/// difference.
pub proof fn law_accepted_within_limit(so_far: Seq<u8>, chunks: Seq<Seq<u8>>, max_body: u64)
    requires
        so_far.len() <= max_body,
    ensures
        accept_all(so_far, chunks, max_body) is Ok <==> so_far.len() + concatenated(chunks).len() <= max_body,
        accept_all(so_far, chunks, max_body) is Ok ==> accept_all(so_far, chunks, max_body)->Ok_0 == so_far
            + concatenated(chunks),
        accept_all(so_far, chunks, max_body) is Err ==> max_body < accept_all(so_far, chunks, max_body)->Err_0
            <= so_far.len() + concatenated(chunks).len(),
    decreases chunks.len(),
{
    if chunks.len() == 0 {
        assert(so_far + concatenated(chunks) =~= so_far);
    } else {
        let rest = chunks.skip(1);
        match accept(so_far, chunks[0], max_body) {
            Ok(s) => {
                law_accepted_within_limit(s, rest, max_body);
                assert(so_far + concatenated(chunks) =~= s + concatenated(rest));
            },
            Err(_) => {},
        }
    }
}

enum Stage<F> {
    Ram(BodySink<F>),
    Opening { back: WriteBack, pending: Bytes },
    Fs(BodySink<F>),
    Appending { sink: BodySink<F>, pending: Bytes },
}

/// What the owner of the input and of the file is to do next.
pub enum ReadStep<'a> {
    /// Fill a buffer of this size from the input, and report it by
    /// [`ReadFrom::filled`], or the end of the input by [`ReadFrom::finish`].
    Read(usize),
    /// Open a new temporary file, write the buffers to it, and report it by
    /// [`ReadFrom::opened`].
    Open(&'a Buffers),
    /// Write the buffer to the end of the file, and report that by
    /// [`ReadFrom::appended`].
    Append(&'a Bytes),
}

/// A body that is being read.
pub struct ReadFrom<F> {
    stage: Stage<F>,
}

impl<F> View for ReadFrom<F> {
    type V = Seq<u8>;

    /// All the bytes that were read.
    closed spec fn view(&self) -> Seq<u8> {
        match self.stage {
            Stage::Ram(s) => s@,
            Stage::Opening { back, pending } => back@ + bytes_content(pending),
            Stage::Fs(s) => s@,
            Stage::Appending { sink, pending } => sink@ + bytes_content(pending),
        }
    }
}

impl<F> ReadFrom<F> {
    /// What a stage says of the sink is true of it.
    #[verifier::type_invariant]
    spec fn inv(self) -> bool {
        match self.stage {
            Stage::Ram(s) => s.in_ram(),
            Stage::Opening { back, pending } => back@.len() + bytes_content(pending).len() <= u64::MAX,
            Stage::Fs(s) => !s.in_ram(),
            Stage::Appending { sink, pending } => {
                &&& !sink.in_ram()
                &&& sink@.len() + bytes_content(pending).len() <= u64::MAX
            },
        }
    }

    /// Whether the bytes are in RAM, and more can be read.
    pub closed spec fn in_ram(&self) -> bool {
        self.stage is Ram
    }

    /// Whether a file is to be opened.
    pub closed spec fn opening(&self) -> bool {
        self.stage is Opening
    }

    /// Whether the bytes are in a file, and more can be read.
    pub closed spec fn in_file(&self) -> bool {
        self.stage is Fs
    }

    /// Whether bytes are to be written to the file.
    pub closed spec fn appending(&self) -> bool {
        self.stage is Appending
    }

    /// A body that is being read is in exactly one of these stages.
    pub proof fn lemma_one_stage(&self)
        ensures
            self.in_ram() ==> !self.opening() && !self.in_file() && !self.appending(),
            self.opening() ==> !self.in_file() && !self.appending(),
            self.in_file() ==> !self.appending(),
            self.in_ram() || self.opening() || self.in_file() || self.appending(),
    {
    }

    /// The file.
    pub closed spec fn the_file(&self) -> F {
        match self.stage {
            Stage::Fs(s) => s.the_file(),
            Stage::Appending { sink, .. } => sink.the_file(),
            _ => arbitrary(),
        }
    }

    /// The bytes that the file holds, or is to hold when it is opened.
    pub closed spec fn stored(&self) -> Seq<u8> {
        match self.stage {
            Stage::Ram(s) => s@,
            Stage::Opening { back, .. } => back@,
            Stage::Fs(s) => s@,
            Stage::Appending { sink, .. } => sink@,
        }
    }

    /// Start, with an estimate of the length in bytes, which is 0 if there is
    /// none. Where the estimate exceeds the limit in RAM a file is used from
    /// the start.
    pub fn new(len_estimate: u64, tune: &Tunables) -> (r: ReadFrom<F>)
        ensures
            r@ == Seq::<u8>::empty(),
            r.stored() == Seq::<u8>::empty(),
            r.in_ram() == (len_estimate <= tune.max_body_ram),
            r.opening() == (len_estimate > tune.max_body_ram),
    {
        if len_estimate > tune.max_body_ram() {
            let mut sink: BodySink<F> = BodySink::empty();
            let back = sink.write_back().unwrap();
            let r = ReadFrom { stage: Stage::Opening { back, pending: Bytes::new() } };
            assert(r@ =~= Seq::<u8>::empty());
            r
        } else {
            ReadFrom { stage: Stage::Ram(BodySink::with_ram(len_estimate)) }
        }
    }

    /// What to do next.
    pub fn step<'a>(&'a self, tune: &Tunables) -> (r: ReadStep<'a>)
        ensures
            match r {
                ReadStep::Read(n) => {
                    ||| self.in_ram() && n == tune.buffer_size_ram
                    ||| self.in_file() && n == tune.buffer_size_fs
                },
                ReadStep::Open(b) => self.opening() && b@ == self.stored(),
                ReadStep::Append(b) => self.appending() && self@ == self.stored() + bytes_content(*b),
            },
    {
        match &self.stage {
            Stage::Ram(_) => ReadStep::Read(tune.buffer_size_ram()),
            Stage::Opening { back, .. } => ReadStep::Open(back.buffers()),
            Stage::Fs(_) => ReadStep::Read(tune.buffer_size_fs()),
            Stage::Appending { pending, .. } => ReadStep::Append(pending),
        }
    }

    /// Whether a buffer is full enough to be reported before the input ends.
    /// Less than 1 KiB of room is not worth another read.
    pub fn is_filled(capacity: usize, filled: usize) -> (b: bool)
        requires
            filled <= capacity,
        ensures
            b == (capacity - filled < 1024),
    {
        capacity - filled < 1024
    }

    /// Take the next buffer of the input.
    pub fn filled(self, buf: Bytes, tune: &Tunables) -> (r: Result<ReadFrom<F>, BodyError>)
        requires
            self.in_ram() || self.in_file(),
            self@.len() + bytes_content(buf).len() <= u64::MAX,
        ensures
            match accept(self@, bytes_content(buf), tune.max_body) {
                Err(l) => r == Err::<ReadFrom<F>, BodyError>(BodyError::BodyTooLong(l as u64)),
                Ok(s) => {
                    &&& r is Ok
                    &&& r->Ok_0@ == s
                    &&& bytes_content(buf).len() == 0 ==> r->Ok_0 == self
                    &&& bytes_content(buf).len() > 0 ==> {
                        &&& r->Ok_0.in_ram() == (self.in_ram() && s.len() <= tune.max_body_ram)
                        &&& r->Ok_0.opening() == (self.in_ram() && s.len() > tune.max_body_ram)
                        &&& r->Ok_0.appending() == self.in_file()
                        &&& r->Ok_0.appending() ==> r->Ok_0.the_file() == self.the_file()
                        &&& !r->Ok_0.in_ram() ==> r->Ok_0.stored() == self@
                    }
                },
            },
    {
        proof {
            use_type_invariant(&self);
        }
        let len: u64 = buf.len() as u64;
        if len == 0 {
            assert(self@ + bytes_content(buf) =~= self@);
            return Ok(self);
        }
        match self.stage {
            Stage::Ram(mut sink) => {
                let size: u64 = sink.len() + len;
                if size > tune.max_body() {
                    Err(BodyError::BodyTooLong(size))
                } else if size > tune.max_body_ram() {
                    let back = sink.write_back().unwrap();
                    Ok(ReadFrom { stage: Stage::Opening { back, pending: buf } })
                } else {
                    let _ = sink.save(buf);
                    Ok(ReadFrom { stage: Stage::Ram(sink) })
                }
            },
            Stage::Fs(sink) => {
                let size: u64 = sink.len() + len;
                if size > tune.max_body() {
                    Err(BodyError::BodyTooLong(size))
                } else {
                    Ok(ReadFrom { stage: Stage::Appending { sink, pending: buf } })
                }
            },
            stage => Ok(ReadFrom { stage }),
        }
    }

    /// Continue with the file that was opened.
    pub fn opened(self, file: F) -> (r: ReadFrom<F>)
        requires
            self.opening(),
        ensures
            r@ == self@,
            r.stored() == self.stored(),
            r.the_file() == file,
            r.in_file() == (self.stored().len() == self@.len()),
            r.appending() == (self.stored().len() < self@.len()),
    {
        proof {
            use_type_invariant(&self);
        }
        match self.stage {
            Stage::Opening { back, pending } => {
                let mut sink: BodySink<F> = BodySink::empty();
                sink.written_back(back, file);
                if pending.len() == 0 {
                    let r = ReadFrom { stage: Stage::Fs(sink) };
                    assert(r@ =~= self@);
                    r
                } else {
                    ReadFrom { stage: Stage::Appending { sink, pending } }
                }
            },
            stage => ReadFrom { stage },
        }
    }

    /// Continue after the bytes were written to the file.
    pub fn appended(self) -> (r: ReadFrom<F>)
        requires
            self.appending(),
        ensures
            r.in_file(),
            r@ == self@,
            r.stored() == self@,
            r.the_file() == self.the_file(),
    {
        proof {
            use_type_invariant(&self);
        }
        match self.stage {
            Stage::Appending { mut sink, pending } => {
                sink.appended(as_slice(&pending));
                ReadFrom { stage: Stage::Fs(sink) }
            },
            stage => ReadFrom { stage },
        }
    }

    /// The file to which bytes are to be written.
    pub fn file(&self) -> (r: Option<&F>)
        ensures
            r is Some == (self.in_file() || self.appending()),
            r is Some ==> *r->0 == self.the_file(),
    {
        proof {
            use_type_invariant(self);
        }
        match &self.stage {
            Stage::Fs(sink) => sink.file(),
            Stage::Appending { sink, .. } => sink.file(),
            _ => None,
        }
    }

    /// The input has ended. The owner has flushed the file, if there is one.
    pub fn finish<M>(self) -> (r: BodyImage<F, M>)
        requires
            self.in_ram() || self.in_file(),
        ensures
            r@ == self@,
            r.in_ram() == (self.in_ram() || self@.len() == 0),
            !r.in_ram() ==> r.in_file() && r.the_file() == self.the_file(),
    {
        proof {
            use_type_invariant(&self);
        }
        match self.stage {
            Stage::Ram(sink) => sink.prepare(),
            Stage::Fs(sink) => sink.prepare(),
            _ => BodyImage::empty(),
        }
    }
}

impl<F, M> BodyImage<F, M> {
    /// Start to read a body from an input, given an estimate of its length in
    /// bytes. See [`ReadFrom`] for how to go on.
    pub fn read_from(len_estimate: u64, tune: &Tunables) -> (r: ReadFrom<F>)
        ensures
            r@ == Seq::<u8>::empty(),
            r.stored() == Seq::<u8>::empty(),
            r.in_ram() == (len_estimate <= tune.max_body_ram),
            r.opening() == (len_estimate > tune.max_body_ram),
    {
        ReadFrom::new(len_estimate, tune)
    }
}

/// The length at which an input in memory is found to be too long: that of the
/// buffers up to and including the one that exceeds the limit. Buffers have the
/// size for RAM as long as the body is kept there, and then that for files.
pub open spec fn too_long_at(total: int, size: int, fs: bool, tune: Tunables) -> int
    decreases total - size,
{
    let limit = if fs {
        tune.buffer_size_fs as int
    } else {
        tune.buffer_size_ram as int
    };
    let n = if total - size < limit {
        total - size
    } else {
        limit
    };
    if n <= 0 || size + n > tune.max_body {
        size + n
    } else {
        too_long_at(total, size + n, fs || size + n > tune.max_body_ram, tune)
    }
}

/// The outcome of deciding where some bytes are to be kept as a body. They fail
/// if they are too many, and are kept in RAM if neither their number nor the
/// estimate of it exceeds the limit for that.
pub open spec fn is_planned(
    all: Seq<u8>,
    len_estimate: u64,
    tune: Tunables,
    r: Result<BodyPlan, BodyError>,
) -> bool {
    let fs = len_estimate > tune.max_body_ram;
    if all.len() > tune.max_body {
        &&& r == Err::<BodyPlan, BodyError>(
            BodyError::BodyTooLong(too_long_at(all.len() as int, 0, fs, tune) as u64),
        )
        &&& tune.max_body < r->Err_0->BodyTooLong_0 <= all.len()
    } else if fs || all.len() > tune.max_body_ram {
        r is Ok && r->Ok_0 is Fs && r->Ok_0->Fs_0@ == all
    } else {
        r is Ok && r->Ok_0 is Ram && r->Ok_0->Ram_0@ == all
    }
}

/// Decide where an input that is in memory already is to be kept as a body, as
/// when it was read buffer by buffer.
pub fn plan_body(data: Bytes, len_estimate: u64, tune: &Tunables) -> (r: Result<BodyPlan, BodyError>)
    requires
        tune.buffer_size_ram > 0,
        tune.buffer_size_fs > 0,
    ensures
        is_planned(bytes_content(data), len_estimate, *tune, r),
{
    let total: usize = data.len();
    let ghost all = bytes_content(data);
    let mut rest = data;
    let mut fs = len_estimate > tune.max_body_ram();
    let mut bufs = Buffers::with_capacity(0);
    while rest.len() > 0
        invariant
            bufs@ + bytes_content(rest) == all,
            all == bytes_content(data),
            all.len() == total,
            bufs@.len() <= tune.max_body,
            fs == (len_estimate > tune.max_body_ram || bufs@.len() > tune.max_body_ram),
            tune.buffer_size_ram > 0,
            tune.buffer_size_fs > 0,
            too_long_at(all.len() as int, 0, len_estimate > tune.max_body_ram, *tune) == too_long_at(
                all.len() as int,
                bufs@.len() as int,
                fs,
                *tune,
            ),
        decreases bytes_content(rest).len(),
    {
        let limit: usize = if fs { tune.buffer_size_fs() } else { tune.buffer_size_ram() };
        let n: usize = if rest.len() < limit { rest.len() } else { limit };
        let ghost left = bytes_content(rest);
        let chunk = rest.split_to(n);
        let size: u64 = bufs.len() + n as u64;
        if size > tune.max_body() {
            return Err(BodyError::BodyTooLong(size));
        }
        if size > tune.max_body_ram() {
            fs = true;
        }
        proof {
            assert((bufs@ + left.take(n as int)) + left.skip(n as int) =~= bufs@ + left);
        }
        bufs.push(chunk);
    }
    assert(bufs@ =~= all);
    if fs {
        Ok(BodyPlan::Fs(bufs))
    } else {
        Ok(BodyPlan::Ram(bufs))
    }
}

/// The most bytes of an input that are looked at: those of the longest body, and
/// of the buffer that exceeds it.
pub open spec fn enough_of(tune: Tunables) -> int {
    tune.max_body + (if tune.buffer_size_ram >= tune.buffer_size_fs {
        tune.buffer_size_ram as int
    } else {
        tune.buffer_size_fs as int
    })
}

/// The most bytes of an input that are looked at, or the largest `u64`.
pub open spec fn most_read(tune: Tunables) -> u64 {
    if enough_of(tune) <= u64::MAX {
        enough_of(tune) as u64
    } else {
        u64::MAX
    }
}

/// The most bytes of an input that are looked at, or the largest `u64`.
pub fn enough(tune: &Tunables) -> (n: u64)
    ensures
        n == most_read(*tune),
{
    let size: usize = if tune.buffer_size_ram() >= tune.buffer_size_fs() {
        tune.buffer_size_ram()
    } else {
        tune.buffer_size_fs()
    };
    tune.max_body().saturating_add(size as u64)
}

/// Where inputs are found to be too long does not depend on how much longer they
/// are.
pub proof fn lemma_too_long_at(a: int, b: int, size: int, fs: bool, tune: Tunables)
    requires
        enough_of(tune) <= a,
        enough_of(tune) <= b,
        0 <= size <= tune.max_body,
        tune.buffer_size_ram > 0,
        tune.buffer_size_fs > 0,
    ensures
        too_long_at(a, size, fs, tune) == too_long_at(b, size, fs, tune),
        too_long_at(a, size, fs, tune) <= enough_of(tune),
    decreases tune.max_body - size,
{
    let n = if fs {
        tune.buffer_size_fs as int
    } else {
        tune.buffer_size_ram as int
    };
    if size + n <= tune.max_body {
        lemma_too_long_at(a, b, size + n, fs || size + n > tune.max_body_ram, tune);
    }
}

/// No more than the first [`enough`] bytes of an input decide what becomes of it.
pub proof fn law_enough_decides(
    all: Seq<u8>,
    n: int,
    len_estimate: u64,
    tune: Tunables,
    r: Result<BodyPlan, BodyError>,
)
    requires
        enough_of(tune) <= n <= all.len(),
        tune.buffer_size_ram > 0,
        tune.buffer_size_fs > 0,
        is_planned(all.take(n), len_estimate, tune, r),
    ensures
        is_planned(all, len_estimate, tune, r),
        too_long_at(n, 0, len_estimate > tune.max_body_ram, tune) == too_long_at(
            all.len() as int,
            0,
            len_estimate > tune.max_body_ram,
            tune,
        ),
{
    lemma_too_long_at(n, all.len() as int, 0, len_estimate > tune.max_body_ram, tune);
}

/// What the next buffer of an input makes of a body. It is refused exactly if the
/// body would then exceed the limit in any form, and the length at which that was
/// found is reported. Otherwise its bytes come after those before. They stay in
/// RAM as long as the limit for that allows. Beyond it a file is opened for the
/// bytes before, and in a file the bytes are appended.
pub proof fn law_next_buffer<F>(
    s: ReadFrom<F>,
    buf: Bytes,
    tune: &Tunables,
    r: Result<ReadFrom<F>, BodyError>,
    step: ReadStep<'_>,
)
    requires
        call_ensures(ReadFrom::<F>::filled, (s, buf, tune), r),
        s.in_ram() || s.in_file(),
        s@.len() + bytes_content(buf).len() <= u64::MAX,
        r matches Ok(next) ==> call_ensures(ReadFrom::<F>::step, (&next, tune), step),
    ensures
        ({
            let len = s@.len() + bytes_content(buf).len();
            let empty = bytes_content(buf).len() == 0;
            &&& r is Err <==> !empty && len > tune.max_body
            &&& r is Err ==> r->Err_0 == BodyError::BodyTooLong(len as u64)
            &&& r matches Ok(next) ==> {
                &&& next@ == s@ + bytes_content(buf)
                &&& empty ==> next == s
                &&& !empty && s.in_ram() && len <= tune.max_body_ram
                    ==> step == ReadStep::Read(tune.buffer_size_ram)
                &&& !empty && s.in_ram() && len > tune.max_body_ram ==> (step matches ReadStep::Open(b) && b@ == s@)
                &&& !empty && s.in_file()
                    ==> (step matches ReadStep::Append(b) && bytes_content(*b) == bytes_content(
                    buf,
                ) && next.the_file() == s.the_file())
            }
        }),
{
    if r is Ok {
        let next = r->Ok_0;
        next.lemma_one_stage();
        s.lemma_one_stage();
        if bytes_content(buf).len() > 0 && s.in_file() {
            assert(step is Append);
            let b = *step->Append_0;
            let whole = s@ + bytes_content(buf);
            assert(next.stored() == s@);
            assert(whole == s@ + bytes_content(b));
            assert(bytes_content(b) =~= whole.skip(s@.len() as int));
            assert(bytes_content(buf) =~= whole.skip(s@.len() as int));
        }
    }
}

/// A body is read into RAM unless its length is expected to exceed the limit for
/// that. The input is then read in buffers of the size for RAM, and otherwise a
/// file is opened first, for nothing yet.
pub proof fn law_read_starts<F, M>(
    len_estimate: u64,
    tune: &Tunables,
    a: ReadFrom<F>,
    b: ReadFrom<F>,
    step: ReadStep<'_>,
    other: ReadStep<'_>,
)
    requires
        call_ensures(ReadFrom::<F>::new, (len_estimate, tune), a),
        call_ensures(BodyImage::<F, M>::read_from, (len_estimate, tune), b),
        call_ensures(ReadFrom::<F>::step, (&a, tune), step),
        call_ensures(ReadFrom::<F>::step, (&b, tune), other),
    ensures
        a@ == Seq::<u8>::empty(),
        b@ == Seq::<u8>::empty(),
        len_estimate <= tune.max_body_ram ==> step == ReadStep::Read(tune.buffer_size_ram) && other == step,
        len_estimate > tune.max_body_ram ==> {
            &&& (step matches ReadStep::Open(n) && n@ == Seq::<u8>::empty())
            &&& (other matches ReadStep::Open(n) && n@ == Seq::<u8>::empty())
        },
{
    a.lemma_one_stage();
    b.lemma_one_stage();
}

/// Once a file was opened for the bytes before, what was read since is appended to
/// it, if there is anything, and then the input is read on, in buffers of the size
/// for files.
pub proof fn law_read_to_file<F>(
    s: ReadFrom<F>,
    tune: &Tunables,
    file: F,
    next: ReadFrom<F>,
    step: ReadStep<'_>,
    last: ReadFrom<F>,
    step_after: ReadStep<'_>,
    handle: Option<&F>,
    handle_after: Option<&F>,
)
    requires
        s.opening(),
        s.stored().len() <= s@.len(),
        call_ensures(ReadFrom::<F>::opened, (s, file), next),
        call_ensures(ReadFrom::<F>::step, (&next, tune), step),
        call_ensures(ReadFrom::<F>::file, (&next,), handle),
        step is Append ==> call_ensures(ReadFrom::<F>::appended, (next,), last),
        step is Append ==> call_ensures(ReadFrom::<F>::step, (&last, tune), step_after),
        step is Append ==> call_ensures(ReadFrom::<F>::file, (&last,), handle_after),
    ensures
        next@ == s@,
        handle == Some(&file),
        s.stored().len() == s@.len() ==> step == ReadStep::Read(tune.buffer_size_fs),
        s.stored().len() < s@.len() ==> {
            &&& (step matches ReadStep::Append(b) && s@ == s.stored() + bytes_content(*b))
            &&& last@ == s@
            &&& step_after == ReadStep::Read(tune.buffer_size_fs)
            &&& handle_after == Some(&file)
        },
{
    next.lemma_one_stage();
    if step is Append {
        last.lemma_one_stage();
    }
}

/// When the input has ended the body is all that was read. It is in RAM if it was
/// read to there or is empty, and otherwise in the file.
pub proof fn law_read_ends<F, M>(s: ReadFrom<F>, r: BodyImage<F, M>, handle: Option<&F>, n: u64, in_ram: bool)
    requires
        s.in_ram() || s.in_file(),
        call_ensures(ReadFrom::<F>::finish::<M>, (s,), r),
        call_ensures(ReadFrom::<F>::file, (&s,), handle),
        call_ensures(BodyImage::<F, M>::len, (&r,), n),
        call_ensures(BodyImage::<F, M>::is_ram, (&r,), in_ram),
    ensures
        r@ == s@,
        n == s@.len(),
        handle is Some <==> !s.in_ram(),
        in_ram <==> handle is None || n == 0,
        !in_ram ==> r.in_file() && r.the_file() == *handle->0,
{
    s.lemma_one_stage();
}

/// A buffer of an input is full enough if there is room for less than 1 KiB.
pub proof fn law_full_enough<F>(capacity: usize, filled: usize, b: bool)
    requires
        filled <= capacity,
        call_ensures(ReadFrom::<F>::is_filled, (capacity, filled), b),
    ensures
        b <==> filled + 1023 >= capacity,
{
}

/// An input in memory is a body exactly if it is no longer than the limit in any
/// form. All of it is kept, in RAM if neither its length nor the estimate of that
/// exceeds the limit for RAM, and otherwise in a file. One that is longer fails
/// with a length above the limit, but no more than that of a buffer.
pub proof fn law_body_in_memory(data: Bytes, len_estimate: u64, tune: &Tunables, r: Result<BodyPlan, BodyError>)
    requires
        tune.buffer_size_ram > 0,
        tune.buffer_size_fs > 0,
        bytes_content(data).len() <= usize::MAX,
        call_ensures(plan_body, (data, len_estimate, tune), r),
    ensures
        r is Ok <==> bytes_content(data).len() <= tune.max_body,
        r matches Ok(plan) ==> {
            let in_ram = len_estimate <= tune.max_body_ram && bytes_content(data).len() <= tune.max_body_ram;
            &&& in_ram ==> (plan matches BodyPlan::Ram(b) && b@ == bytes_content(data))
            &&& !in_ram ==> (plan matches BodyPlan::Fs(b) && b@ == bytes_content(data))
        },
        r matches Err(e) ==> (e matches BodyError::BodyTooLong(n)
            && tune.max_body < n <= bytes_content(data).len() && (n
            <= tune.max_body + tune.buffer_size_ram || n <= tune.max_body + tune.buffer_size_fs)),
        r is Err && tune.buffer_size_ram == tune.buffer_size_fs && bytes_content(data).len() >= tune.max_body
            + tune.buffer_size_ram ==> r->Err_0->BodyTooLong_0 as int % tune.buffer_size_ram as int == 0,
{
    if r is Err {
        let fs = len_estimate > tune.max_body_ram;
        lemma_too_long_within(bytes_content(data).len() as int, 0, fs, *tune);
        if tune.buffer_size_ram == tune.buffer_size_fs && bytes_content(data).len() >= tune.max_body
            + tune.buffer_size_ram {
            assert(0int % tune.buffer_size_ram as int == 0) by (nonlinear_arith)
                requires
                    tune.buffer_size_ram > 0,
            ;
            lemma_too_long_multiple(bytes_content(data).len() as int, 0, fs, *tune);
        }
    }
}

/// Where an input is found to be too long is no more than a buffer above the limit.
proof fn lemma_too_long_within(total: int, size: int, fs: bool, tune: Tunables)
    requires
        0 <= size <= tune.max_body < total,
        tune.buffer_size_ram > 0,
        tune.buffer_size_fs > 0,
    ensures
        tune.max_body < too_long_at(total, size, fs, tune) <= total,
        too_long_at(total, size, fs, tune) <= tune.max_body + tune.buffer_size_ram || too_long_at(
            total,
            size,
            fs,
            tune,
        ) <= tune.max_body + tune.buffer_size_fs,
    decreases total - size,
{
    let limit = if fs {
        tune.buffer_size_fs as int
    } else {
        tune.buffer_size_ram as int
    };
    let n = if total - size < limit {
        total - size
    } else {
        limit
    };
    if size + n <= tune.max_body {
        lemma_too_long_within(total, size + n, fs || size + n > tune.max_body_ram, tune);
    }
}

/// Where an input is found to be too long is a number of whole buffers, if all of
/// them have the same size, and there is enough of the input.
proof fn lemma_too_long_multiple(total: int, size: int, fs: bool, tune: Tunables)
    requires
        tune.buffer_size_ram > 0,
        tune.buffer_size_ram == tune.buffer_size_fs,
        tune.max_body + tune.buffer_size_ram <= total,
        0 <= size <= tune.max_body,
        size % tune.buffer_size_ram as int == 0,
    ensures
        too_long_at(total, size, fs, tune) % tune.buffer_size_ram as int == 0,
    decreases total - size,
{
    let n = tune.buffer_size_ram as int;
    assert((size + n) % n == 0) by (nonlinear_arith)
        requires
            size % n == 0,
            n > 0,
    ;
    if size + n <= tune.max_body {
        lemma_too_long_multiple(total, size + n, fs || size + n > tune.max_body_ram, tune);
    }
}

/// Enough of an input is the longest body and the larger of the buffers, or as
/// much as can be counted.
pub proof fn law_enough(tune: &Tunables, n: u64)
    requires
        call_ensures(enough, (tune,), n),
    ensures
        n < u64::MAX ==> n >= tune.max_body + tune.buffer_size_ram && n >= tune.max_body + tune.buffer_size_fs,
        n == tune.max_body + tune.buffer_size_ram || n == tune.max_body + tune.buffer_size_fs || n == u64::MAX,
        n == u64::MAX ==> tune.max_body + tune.buffer_size_ram >= n || tune.max_body + tune.buffer_size_fs >= n,
{
}

} // verus!
