//! Writing records.
use http::header::{HeaderMap, HeaderValue};
use vstd::prelude::*;

use crate::barc::compress::{
    compressible_len, encoded, is_encoding, required_len, BrotliCompressStrategy, CompressStrategy, EncodeWrapper,
    GzipCompressStrategy, NoCompressStrategy,
};
use crate::barc::head::{
    head_bytes, law_head_layout, reserve_head, unhex, write_all_len, write_record_head, BarcError, Compression,
    RecordHead, V2_HEAD_SIZE, V2_MAX_HBLOCK, V2_MAX_RECORD, V2_MAX_REQ_BODY,
};
use crate::barc::record::{MetaRecorded};
use crate::buf::Buffers;
use crate::codec::{brotlied, gunzip_head, gzipped, unbrotli_head};
use crate::dialog::Body;
use crate::headers::{
    crlf, header_block, header_entries, header_pairs, is_header_list, lemma_header_block_len, len_of_headers,
    pairs_view, Pair,
};

verus! {

/// Some bytes, with a line end after them if asked for and if there are any.
pub open spec fn framed(s: Seq<u8>, with_crlf: bool) -> Seq<u8> {
    if with_crlf && s.len() > 0 {
        s + crlf()
    } else {
        s
    }
}

/// The bytes of the headers of a map, with an empty line after them if asked
/// for and if there are any.
pub open spec fn framed_headers(headers: HeaderMap<HeaderValue>, with_crlf: bool) -> Seq<u8> {
    framed(header_block(header_entries(headers)), with_crlf)
}

/// Append a header block, with an empty line at its end if asked for, and return
/// the length written. The block must fit the format.
pub fn write_headers(out: &mut Vec<u8>, with_crlf: bool, headers: &HeaderMap<HeaderValue>) -> (n: usize)
    requires
        framed_headers(*headers, with_crlf).len() <= V2_MAX_HBLOCK,
    ensures
        final(out)@ == old(out)@ + framed_headers(*headers, with_crlf),
        n == framed_headers(*headers, with_crlf).len(),
        is_header_list(header_entries(*headers)),
{
    let pairs = header_pairs(headers);
    let ghost all = header_entries(*headers);
    let colon: [u8; 2] = [0x3a, 0x20];
    let end: [u8; 2] = [0x0d, 0x0a];
    let mut size: usize = 0;
    let mut i: usize = 0;
    proof {
        assert(colon@ =~= seq![0x3au8, 0x20]);
        assert(end@ =~= crlf());
    }
    while i < pairs.len()
        invariant
            i <= pairs@.len(),
            all == pairs_view(pairs@),
            colon@ == seq![0x3au8, 0x20],
            end@ == crlf(),
            header_block(all).len() <= V2_MAX_HBLOCK,
            size == header_block(all.take(i as int)).len(),
            out@ == old(out)@ + header_block(all.take(i as int)),
        decreases pairs@.len() - i,
    {
        proof {
            assert(all.take(i + 1).drop_last() =~= all.take(i as int));
            lemma_header_block_len(all.take(i + 1));
            lemma_block_of_prefix(all, i + 1);
        }
        size += write_all_len(out, pairs[i].0.as_slice());
        size += write_all_len(out, colon.as_slice());
        size += write_all_len(out, pairs[i].1.as_slice());
        size += write_all_len(out, end.as_slice());
        i += 1;
        assert(out@ =~= old(out)@ + header_block(all.take(i as int)));
    }
    assert(all.take(i as int) =~= all);
    if with_crlf && size > 0 {
        size += write_all_len(out, end.as_slice());
        assert(out@ =~= old(out)@ + framed_headers(*headers, with_crlf));
    }
    size
}

/// The lines of the first headers are no longer than those of all.
proof fn lemma_block_of_prefix(s: Seq<Pair>, n: int)
    requires
        0 <= n <= s.len(),
    ensures
        header_block(s.take(n)).len() <= header_block(s).len(),
    decreases s.len(),
{
    if n == s.len() {
        assert(s.take(n) =~= s);
    } else {
        assert(s.drop_last().take(n) =~= s.take(n));
        lemma_block_of_prefix(s.drop_last(), n);
    }
}

/// Append a body, with a line end after it if asked for, and return the length
/// written.
pub fn write_body(out: &mut Vec<u8>, with_crlf: bool, body: &Buffers) -> (n: u64)
    requires
        framed(body@, with_crlf).len() <= u64::MAX,
    ensures
        final(out)@ == old(out)@ + framed(body@, with_crlf),
        n == framed(body@, with_crlf).len(),
{
    body.append_to(out);
    let mut size: u64 = body.len();
    if with_crlf && size > 0 {
        let end: [u8; 2] = [0x0d, 0x0a];
        assert(end@ =~= crlf());
        size += write_all_len(out, end.as_slice()) as u64;
        assert(out@ =~= old(out)@ + framed(body@, with_crlf));
    }
    size
}

/// What holds of the headers of any recording.
pub open spec fn has_header_lists<R: MetaRecorded<B = Buffers>>(rec: R) -> bool {
    &&& is_header_list(header_entries(rec.spec_meta()))
    &&& is_header_list(header_entries(rec.spec_req_headers()))
    &&& is_header_list(header_entries(rec.spec_res_headers()))
}

/// The bytes of a record, before they are encoded.
pub open spec fn payload<R: MetaRecorded<B = Buffers>>(rec: R, with_crlf: bool) -> Seq<u8> {
    framed_headers(rec.spec_meta(), with_crlf) + framed_headers(rec.spec_req_headers(), with_crlf) + framed(
        rec.spec_req_body()@,
        with_crlf,
    ) + framed_headers(rec.spec_res_headers(), with_crlf) + framed(rec.spec_res_body()@, with_crlf)
}

/// Whether the parts of a record fit the format.
pub open spec fn fits<R: MetaRecorded<B = Buffers>>(rec: R, with_crlf: bool) -> bool {
    &&& framed_headers(rec.spec_meta(), with_crlf).len() <= V2_MAX_HBLOCK
    &&& framed_headers(rec.spec_req_headers(), with_crlf).len() <= V2_MAX_HBLOCK
    &&& framed_headers(rec.spec_res_headers(), with_crlf).len() <= V2_MAX_HBLOCK
    &&& framed(rec.spec_req_body()@, with_crlf).len() <= V2_MAX_REQ_BODY
    &&& framed_headers(rec.spec_meta(), with_crlf).len() + framed_headers(
        rec.spec_req_headers(),
        with_crlf,
    ).len() + framed(rec.spec_req_body()@, with_crlf).len() + framed_headers(
        rec.spec_res_headers(),
        with_crlf,
    ).len() + rec.spec_res_body()@.len() + 2 <= V2_MAX_RECORD
}

/// The length of a header block with its end, if it fits the format.
fn fitting_headers(headers: &HeaderMap<HeaderValue>, with_crlf: bool) -> (r: Option<u64>)
    ensures
        r == (if framed_headers(*headers, with_crlf).len() <= V2_MAX_HBLOCK {
            Some(framed_headers(*headers, with_crlf).len() as u64)
        } else {
            None
        }),
{
    match len_of_headers(headers) {
        Some(n) => {
            let limit: u64 = V2_MAX_HBLOCK as u64;
            if n > limit {
                return None;
            }
            let n: u64 = if with_crlf && n > 0 { n + 2 } else { n };
            if n <= limit {
                Some(n)
            } else {
                None
            }
        },
        None => None,
    }
}

/// Whether the parts of a record fit the format, for it to be written with or
/// without line ends between them.
pub fn record_fits<R: MetaRecorded<B = Buffers>>(rec: &R, with_crlf: bool) -> (b: bool)
    ensures
        b == fits(*rec, with_crlf),
{
    match (
        fitting_headers(rec.meta(), with_crlf),
        fitting_headers(rec.req_headers(), with_crlf),
        fitting_headers(rec.res_headers(), with_crlf),
    ) {
        (Some(meta), Some(req_h), Some(res_h)) => {
            let req_b: u64 = rec.req_body().len();
            let res_b: u64 = rec.res_body().len();
            if req_b > V2_MAX_REQ_BODY || res_b > V2_MAX_RECORD {
                return false;
            }
            let req_b: u64 = if with_crlf && req_b > 0 { req_b + 2 } else { req_b };
            req_b <= V2_MAX_REQ_BODY && meta + req_h + req_b + res_h + res_b + 2 <= V2_MAX_RECORD
        },
        _ => false,
    }
}

/// The head of a record as it is before the bytes are encoded: the length is
/// that of the payload.
pub open spec fn raw_head<R: MetaRecorded<B = Buffers>>(rec: R, mode: Compression) -> RecordHead {
    let with_crlf = mode is Plain;
    RecordHead {
        len: payload(rec, with_crlf).len() as u64,
        rec_type: rec.spec_rec_type(),
        compress: mode,
        meta: framed_headers(rec.spec_meta(), with_crlf).len() as usize,
        req_h: framed_headers(rec.spec_req_headers(), with_crlf).len() as usize,
        req_b: framed(rec.spec_req_body()@, with_crlf).len() as u64,
        res_h: framed_headers(rec.spec_res_headers(), with_crlf).len() as usize,
    }
}

/// The mode and level that a strategy has for a record.
pub open spec fn chosen<R: MetaRecorded<B = Buffers>, S: CompressStrategy>(rec: R, strategy: S) -> (
    Compression,
    u32,
) {
    strategy.spec_mode(
        compressible_len(rec, strategy.spec_check_identity()) >= required_len(
            rec,
            strategy.spec_check_identity(),
            strategy.spec_min_len(),
            strategy.spec_non_compressible(rec.spec_res_body().size() as u64),
            strategy.spec_non_compressible(rec.spec_req_body().size() as u64),
        ),
    )
}

/// The bytes that are stored of a record after its head, by a strategy.
pub open spec fn encoded_record<R: MetaRecorded<B = Buffers>, S: CompressStrategy>(rec: R, strategy: S) -> Seq<
    u8,
> {
    let (mode, level) = chosen(rec, strategy);
    encoded(mode, level, payload(rec, mode is Plain))
}

/// Encode a record by a strategy. Returns its head, with lengths from before
/// the compression, and the encoded bytes. The parts must fit the format, and
/// then this always succeeds, as the bytes go to memory.
pub fn write_record<R: MetaRecorded<B = Buffers>, S: CompressStrategy>(rec: &R, strategy: &S) -> (r: Result<
    (RecordHead, Vec<u8>),
    BarcError,
>)
    requires
        strategy.wf(),
        fits(*rec, chosen(*rec, *strategy).0 is Plain),
    ensures
        r is Ok,
        ({
            let (mode, level) = chosen(*rec, *strategy);
            &&& r->Ok_0.0 == raw_head(*rec, mode)
            &&& r->Ok_0.0.wf()
            &&& is_encoding(mode, level, payload(*rec, mode is Plain), r->Ok_0.1@)
            &&& has_header_lists(*rec)
        }),
{
    let mut wrapper = strategy.wrap_encoder(rec);
    let compress = wrapper.mode();
    let with_crlf = compress == Compression::Plain;
    let out = wrapper.as_write();
    let meta: usize = write_headers(out, with_crlf, rec.meta());
    let req_h: usize = write_headers(out, with_crlf, rec.req_headers());
    let req_b: u64 = write_body(out, with_crlf, rec.req_body());
    let res_h: usize = write_headers(out, with_crlf, rec.res_headers());
    let res_b: u64 = write_body(out, with_crlf, rec.res_body());
    assert(out@ =~= payload(*rec, with_crlf));
    let len: u64 = (meta + req_h + res_h) as u64 + req_b + res_b;
    let head = RecordHead { len, rec_type: rec.rec_type(), compress, meta, req_h, req_b, res_h };
    match wrapper.finish() {
        Ok(bytes) => Ok((head, bytes)),
        Err(e) => Err(e),
    }
}

/// The writes that add a record to a file, in the order in which they are to be
/// made.
///
/// First the reserved head goes to the end of the file, at `start`, and is
/// flushed. Then the payload goes after it. Last, the head replaces the reserved
/// one, and is flushed.
pub struct WritePlan {
    pub start: u64,
    pub reserve: Vec<u8>,
    pub payload: Vec<u8>,
    pub head: Vec<u8>,
}

impl WritePlan {
    /// The offset of the payload.
    pub fn payload_offset(&self) -> (r: u64)
        requires
            self.start + V2_HEAD_SIZE <= u64::MAX,
        ensures
            r == self.start + V2_HEAD_SIZE,
    {
        self.start + V2_HEAD_SIZE as u64
    }
}

/// A file after some bytes were written at an offset within it or at its end.
pub open spec fn written(file: Seq<u8>, offset: int, bytes: Seq<u8>) -> Seq<u8> {
    file.take(offset) + bytes + (if offset + bytes.len() < file.len() {
        file.skip(offset + bytes.len())
    } else {
        Seq::empty()
    })
}

/// The writer of a file, which knows the length of the file.
pub struct BarcWriter {
    pub end: u64,
}

impl BarcWriter {
    /// A writer of a file of the given length.
    pub fn new(end: u64) -> (r: BarcWriter)
        ensures
            r.end == end,
    {
        BarcWriter { end }
    }

    /// Write a new record at the end of the file. Returns what is to be written,
    /// with the offset of the record. The parts must fit the format, and the
    /// bytes must be within the range of offsets. `None` where the compressed
    /// bytes, which cannot be known before, exceed these limits; the writer is
    /// then unchanged. Otherwise this always succeeds: it is the writes of the
    /// plan that can fail.
    pub fn write<R: MetaRecorded<B = Buffers>, S: CompressStrategy>(&mut self, rec: &R, strategy: &S) -> (r:
        Result<Option<WritePlan>, BarcError>)
        requires
            strategy.wf(),
            fits(*rec, chosen(*rec, *strategy).0 is Plain),
            old(self).end + V2_HEAD_SIZE + V2_MAX_RECORD <= u64::MAX,
        ensures
            r is Ok,
            r->Ok_0 is None <==> encoded_record(*rec, *strategy).len() > V2_MAX_RECORD,
            r->Ok_0 is None ==> *final(self) == *old(self) && !(chosen(*rec, *strategy).0 is Plain),
            r matches Ok(Some(plan)) ==> {
                let (mode, level) = chosen(*rec, *strategy);
                let head = RecordHead { len: plan.payload@.len() as u64, ..raw_head(*rec, mode) };
                &&& plan.start == old(self).end
                &&& plan.reserve@ == head_bytes(reserve_head())
                &&& plan.payload@ == encoded_record(*rec, *strategy)
                &&& is_encoding(mode, level, payload(*rec, mode is Plain), plan.payload@)
                &&& plan.payload@.len() <= V2_MAX_RECORD
                &&& head.wf()
                &&& plan.head@ == head_bytes(head)
                &&& has_header_lists(*rec)
                &&& final(self).end == plan.start + V2_HEAD_SIZE + plan.payload@.len()
            },
    {
        let start: u64 = self.end;
        let mut reserve: Vec<u8> = Vec::new();
        let reserved = RecordHead::reserved();
        write_record_head(&mut reserve, &reserved);
        assert(reserve@ =~= head_bytes(reserve_head()));
        match write_record(rec, strategy) {
            Ok((raw, bytes)) => {
                let len: u64 = bytes.len() as u64;
                if len > V2_MAX_RECORD {
                    return Ok(None);
                }
                let head = RecordHead { len, ..raw };
                let mut head_buf: Vec<u8> = Vec::new();
                write_record_head(&mut head_buf, &head);
                assert(head_buf@ =~= head_bytes(head));
                self.end = start + V2_HEAD_SIZE as u64 + len;
                Ok(Some(WritePlan { start, reserve, payload: bytes, head: head_buf }))
            },
            Err(e) => Err(e),
        }
    }
}

/// The three writes of a plan leave the file as it was, with the head and the
/// payload after it. In between, the file ends with the reserved head and then
/// with the payload after it.
pub proof fn law_plan_appends(file: Seq<u8>, reserve: Seq<u8>, payload: Seq<u8>, head: Seq<u8>)
    requires
        reserve.len() == V2_HEAD_SIZE,
        head.len() == V2_HEAD_SIZE,
    ensures
        ({
            let n = file.len() as int;
            let first = written(file, n, reserve);
            let second = written(first, n + V2_HEAD_SIZE, payload);
            let third = written(second, n, head);
            &&& first == file + reserve
            &&& second == file + reserve + payload
            &&& third == file + head + payload
        }),
{
    let n = file.len() as int;
    let first = written(file, n, reserve);
    assert(first =~= file + reserve);
    let second = written(first, n + V2_HEAD_SIZE, payload);
    assert(second =~= file + reserve + payload);
    let third = written(second, n, head);
    assert(third =~= file + head + payload);
}

/// Bytes that are framed are followed by the end of a line, unless there are none
/// or it is not asked for.
pub proof fn law_framed(s: Seq<u8>)
    ensures
        framed(s, false) == s,
        s.len() > 0 ==> framed(s, true) == s + seq![0x0du8, 0x0a],
        s.len() == 0 ==> framed(s, true) == s,
{
}

/// Headers and bodies are added to what was written before, and it is the number of
/// bytes added that is returned.
pub proof fn law_parts_are_written(
    out: &mut Vec<u8>,
    next: &mut Vec<u8>,
    with_crlf: bool,
    headers: &HeaderMap<HeaderValue>,
    body: &Buffers,
    n: usize,
    m: u64,
)
    requires
        call_ensures(write_headers, (out, with_crlf, headers), n),
        call_ensures(write_body, (next, with_crlf, body), m),
    ensures
        ({
            let block = header_block(header_entries(*headers));
            let end = seq![0x0du8, 0x0a];
            &&& final(out)@ == old(out)@ + (if with_crlf && block.len() > 0 {
                block + end
            } else {
                block
            })
            &&& final(next)@ == old(next)@ + (if with_crlf && body@.len() > 0 {
                body@ + end
            } else {
                body@
            })
            &&& n == final(out)@.len() - old(out)@.len()
            &&& m == final(next)@.len() - old(next)@.len()
        }),
{
}

/// A record fits the format exactly if each block of headers is at most 2^20 - 1
/// bytes long, the request body at most 2^40 - 1, and all of it at most 2^48 - 1,
/// with the ends of lines where they are asked for.
pub proof fn law_fitting_records<R: MetaRecorded<B = Buffers>>(rec: &R, plain: bool, encoded: bool)
    requires
        call_ensures(record_fits::<R>, (rec, true), plain),
        call_ensures(record_fits::<R>, (rec, false), encoded),
    ensures
        ({
            let m = header_block(header_entries(rec.spec_meta()));
            let q = header_block(header_entries(rec.spec_req_headers()));
            let qb = rec.spec_req_body()@;
            let s = header_block(header_entries(rec.spec_res_headers()));
            let sb = rec.spec_res_body()@;
            let all = m.len() + q.len() + qb.len() + s.len() + sb.len();
            &&& encoded <==> m.len() <= 0xfffff && q.len() <= 0xfffff && s.len() <= 0xfffff && qb.len()
                <= 0xff_ffff_ffff && all + 2 <= 0xffff_ffff_ffff
            &&& m.len() > 0 && q.len() > 0 && s.len() > 0 && qb.len() > 0 ==> (plain <==> m.len() + 2 <= 0xfffff
                && q.len() + 2 <= 0xfffff && s.len() + 2 <= 0xfffff && qb.len() + 2 <= 0xff_ffff_ffff && all + 10
                <= 0xffff_ffff_ffff)
            &&& plain ==> encoded
        }),
{
}

/// The payload comes right after the head.
pub proof fn law_payload_after_head(p: &WritePlan, r: u64)
    requires
        call_ensures(WritePlan::payload_offset, (p,), r),
    ensures
        r == p.start + 54,
{
}

/// A writer starts at the end that it is given.
pub proof fn law_writer_at_end(end: u64, w: BarcWriter)
    requires
        call_ensures(BarcWriter::new, (end,), w),
    ensures
        w.end == end,
{
}

/// What the head of a record says, by the parts of the record.
proof fn lemma_written_head<R: MetaRecorded<B = Buffers>>(rec: R, mode: Compression, stored: Seq<u8>)
    requires
        fits(rec, mode is Plain),
        stored.len() <= V2_MAX_RECORD,
    ensures
        ({
            let b = head_bytes(RecordHead { len: stored.len() as u64, ..raw_head(rec, mode) });
            let plain = mode is Plain;
            &&& b.len() == 54
            &&& b[19] == 0x44 <==> rec.spec_rec_type() is Dialog
            &&& b[20] == 0x50 <==> mode is Plain
            &&& b[20] == 0x5a <==> mode is Gzip
            &&& b[20] == 0x42 <==> mode is Brotli
            &&& unhex(b.subrange(6, 18)) == Ok::<nat, u8>(stored.len())
            &&& unhex(b.subrange(22, 27)) == Ok::<nat, u8>(framed_headers(rec.spec_meta(), plain).len())
            &&& unhex(b.subrange(28, 33)) == Ok::<nat, u8>(framed_headers(rec.spec_req_headers(), plain).len())
            &&& unhex(b.subrange(34, 44)) == Ok::<nat, u8>(framed(rec.spec_req_body()@, plain).len())
            &&& unhex(b.subrange(45, 50)) == Ok::<nat, u8>(framed_headers(rec.spec_res_headers(), plain).len())
        }),
        head_bytes(reserve_head()).len() == 54,
        head_bytes(reserve_head())[19] == 0x52,
{
    let h = RecordHead { len: stored.len() as u64, ..raw_head(rec, mode) };
    law_head_layout(h);
    law_head_layout(reserve_head());
}

/// With the strategy of Brotli the record goes to the end of the file, in the
/// compression that the encoder of the strategy has: either Brotli, at the level
/// of the strategy, of all parts one after the other, or not compressed, with the
/// end of a line after each part that is not empty. The head says which, and how
/// long the record and its parts are. Before, a reserved head is written.
pub proof fn law_brotli_record_is_written<R: MetaRecorded<B = Buffers>>(
    w: &mut BarcWriter,
    rec: &R,
    strategy: &BrotliCompressStrategy,
    e: EncodeWrapper,
    r: Result<Option<WritePlan>, BarcError>,
)
    requires
        call_ensures(BrotliCompressStrategy::wrap_encoder::<R>, (strategy, rec), e),
        fits(*rec, chosen(*rec, *strategy).0 is Plain),
        call_ensures(BarcWriter::write::<R, BrotliCompressStrategy>, (w, rec, strategy), r),
    ensures
        r is Ok,
        r matches Ok(None) ==> *final(w) == *old(w),
        r matches Ok(Some(plan)) ==> {
            let m = header_block(header_entries(rec.spec_meta()));
            let q = header_block(header_entries(rec.spec_req_headers()));
            let qb = rec.spec_req_body()@;
            let s = header_block(header_entries(rec.spec_res_headers()));
            let sb = rec.spec_res_body()@;
            let compressed = e.spec_mode() is Brotli;
            &&& plan.start == old(w).end
            &&& final(w).end == old(w).end + 54 + plan.payload@.len()
            &&& plan.reserve@.len() == 54 && plan.reserve@[19] == 0x52
            &&& plan.head@.len() == 54
            &&& plan.head@[19] == 0x44 <==> rec.spec_rec_type() is Dialog
            &&& unhex(plan.head@.subrange(6, 18)) == Ok::<nat, u8>(plan.payload@.len())
            &&& compressed ==> {
                &&& plan.head@[20] == 0x42
                &&& plan.payload@ == brotlied(strategy.compression_level, m + q + qb + s + sb)
                &&& unbrotli_head(plan.payload@, u64::MAX) == Some(m + q + qb + s + sb)
                &&& unhex(plan.head@.subrange(22, 27)) == Ok::<nat, u8>(m.len())
                &&& unhex(plan.head@.subrange(28, 33)) == Ok::<nat, u8>(q.len())
                &&& unhex(plan.head@.subrange(34, 44)) == Ok::<nat, u8>(qb.len())
                &&& unhex(plan.head@.subrange(45, 50)) == Ok::<nat, u8>(s.len())
            }
            &&& !compressed ==> {
                let t = |x: Seq<u8>| framed(x, true);
                &&& plan.head@[20] == 0x50
                &&& plan.payload@ == t(m) + t(q) + t(qb) + t(s) + t(sb)
                &&& unhex(plan.head@.subrange(22, 27)) == Ok::<nat, u8>(t(m).len())
                &&& unhex(plan.head@.subrange(28, 33)) == Ok::<nat, u8>(t(q).len())
                &&& unhex(plan.head@.subrange(34, 44)) == Ok::<nat, u8>(t(qb).len())
                &&& unhex(plan.head@.subrange(45, 50)) == Ok::<nat, u8>(t(s).len())
            }
        },
{
    if let Ok(Some(plan)) = r {
        lemma_written_head(*rec, chosen(*rec, *strategy).0, plan.payload@);
    }
}

/// With the strategy of gzip the record goes to the end of the file, in the
/// compression that the encoder of the strategy has: either gzip, at the level
/// of the strategy, of all parts one after the other, or not compressed, with the
/// end of a line after each part that is not empty. The head says which, and how
/// long the record and its parts are. Before, a reserved head is written.
pub proof fn law_gzip_record_is_written<R: MetaRecorded<B = Buffers>>(
    w: &mut BarcWriter,
    rec: &R,
    strategy: &GzipCompressStrategy,
    e: EncodeWrapper,
    r: Result<Option<WritePlan>, BarcError>,
)
    requires
        call_ensures(GzipCompressStrategy::wrap_encoder::<R>, (strategy, rec), e),
        fits(*rec, chosen(*rec, *strategy).0 is Plain),
        call_ensures(BarcWriter::write::<R, GzipCompressStrategy>, (w, rec, strategy), r),
    ensures
        r is Ok,
        r matches Ok(None) ==> *final(w) == *old(w),
        r matches Ok(Some(plan)) ==> {
            let m = header_block(header_entries(rec.spec_meta()));
            let q = header_block(header_entries(rec.spec_req_headers()));
            let qb = rec.spec_req_body()@;
            let s = header_block(header_entries(rec.spec_res_headers()));
            let sb = rec.spec_res_body()@;
            let compressed = e.spec_mode() is Gzip;
            &&& plan.start == old(w).end
            &&& final(w).end == old(w).end + 54 + plan.payload@.len()
            &&& plan.reserve@.len() == 54 && plan.reserve@[19] == 0x52
            &&& plan.head@.len() == 54
            &&& plan.head@[19] == 0x44 <==> rec.spec_rec_type() is Dialog
            &&& unhex(plan.head@.subrange(6, 18)) == Ok::<nat, u8>(plan.payload@.len())
            &&& compressed ==> {
                &&& plan.head@[20] == 0x5a
                &&& plan.payload@ == gzipped(strategy.compression_level, m + q + qb + s + sb)
                &&& gunzip_head(plan.payload@, u64::MAX) == Some(m + q + qb + s + sb)
                &&& unhex(plan.head@.subrange(22, 27)) == Ok::<nat, u8>(m.len())
                &&& unhex(plan.head@.subrange(28, 33)) == Ok::<nat, u8>(q.len())
                &&& unhex(plan.head@.subrange(34, 44)) == Ok::<nat, u8>(qb.len())
                &&& unhex(plan.head@.subrange(45, 50)) == Ok::<nat, u8>(s.len())
            }
            &&& !compressed ==> {
                let t = |x: Seq<u8>| framed(x, true);
                &&& plan.head@[20] == 0x50
                &&& plan.payload@ == t(m) + t(q) + t(qb) + t(s) + t(sb)
                &&& unhex(plan.head@.subrange(22, 27)) == Ok::<nat, u8>(t(m).len())
                &&& unhex(plan.head@.subrange(28, 33)) == Ok::<nat, u8>(t(q).len())
                &&& unhex(plan.head@.subrange(34, 44)) == Ok::<nat, u8>(t(qb).len())
                &&& unhex(plan.head@.subrange(45, 50)) == Ok::<nat, u8>(t(s).len())
            }
        },
{
    if let Ok(Some(plan)) = r {
        lemma_written_head(*rec, chosen(*rec, *strategy).0, plan.payload@);
    }
}

/// With the strategy of no compression the record goes to the end of the file as it
/// is, with the end of a line after each part that is not empty. The head says so,
/// and how long the record and its parts are. Before, a reserved head is written.
pub proof fn law_plain_record_is_written<R: MetaRecorded<B = Buffers>>(
    w: &mut BarcWriter,
    rec: &R,
    strategy: &NoCompressStrategy,
    r: Result<Option<WritePlan>, BarcError>,
)
    requires
        fits(*rec, chosen(*rec, *strategy).0 is Plain),
        call_ensures(BarcWriter::write::<R, NoCompressStrategy>, (w, rec, strategy), r),
    ensures
        r is Ok,
        r matches Ok(None) ==> *final(w) == *old(w),
        r matches Ok(Some(plan)) ==> {
            let m = header_block(header_entries(rec.spec_meta()));
            let q = header_block(header_entries(rec.spec_req_headers()));
            let qb = rec.spec_req_body()@;
            let s = header_block(header_entries(rec.spec_res_headers()));
            let sb = rec.spec_res_body()@;
            let compressed = false;
            &&& plan.start == old(w).end
            &&& final(w).end == old(w).end + 54 + plan.payload@.len()
            &&& plan.reserve@.len() == 54 && plan.reserve@[19] == 0x52
            &&& plan.head@.len() == 54
            &&& plan.head@[19] == 0x44 <==> rec.spec_rec_type() is Dialog
            &&& unhex(plan.head@.subrange(6, 18)) == Ok::<nat, u8>(plan.payload@.len())
            &&& !compressed ==> {
                let t = |x: Seq<u8>| framed(x, true);
                &&& plan.head@[20] == 0x50
                &&& plan.payload@ == t(m) + t(q) + t(qb) + t(s) + t(sb)
                &&& unhex(plan.head@.subrange(22, 27)) == Ok::<nat, u8>(t(m).len())
                &&& unhex(plan.head@.subrange(28, 33)) == Ok::<nat, u8>(t(q).len())
                &&& unhex(plan.head@.subrange(34, 44)) == Ok::<nat, u8>(t(qb).len())
                &&& unhex(plan.head@.subrange(45, 50)) == Ok::<nat, u8>(t(s).len())
            }
        },
{
    if let Ok(Some(plan)) = r {
        lemma_written_head(*rec, chosen(*rec, *strategy).0, plan.payload@);
    }
}

/// The head of a record that was encoded says what the record is, and how long its
/// parts are before compression: those of all headers and of the request body, and the
/// total. Without compression each part that is not empty has the end of a line.
pub proof fn law_encoded_record<R: MetaRecorded<B = Buffers>>(
    rec: &R,
    plain: &NoCompressStrategy,
    r: Result<(RecordHead, Vec<u8>), BarcError>,
)
    requires
        fits(*rec, true),
        call_ensures(write_record::<R, NoCompressStrategy>, (rec, plain), r),
    ensures
        r matches Ok((h, bytes)) && {
            let m = header_block(header_entries(rec.spec_meta()));
            let q = header_block(header_entries(rec.spec_req_headers()));
            let qb = rec.spec_req_body()@;
            let s = header_block(header_entries(rec.spec_res_headers()));
            let sb = rec.spec_res_body()@;
            &&& h.rec_type == rec.spec_rec_type()
            &&& h.compress is Plain
            &&& h.meta == m.len() + (if m.len() > 0 { 2int } else { 0 })
            &&& h.req_h == q.len() + (if q.len() > 0 { 2int } else { 0 })
            &&& h.req_b == qb.len() + (if qb.len() > 0 { 2int } else { 0 })
            &&& h.res_h == s.len() + (if s.len() > 0 { 2int } else { 0 })
            &&& h.len == h.meta + h.req_h + h.req_b + h.res_h + sb.len() + (if sb.len() > 0 { 2int } else { 0 })
            &&& bytes@.len() == h.len
        },
{
}

} // verus!
