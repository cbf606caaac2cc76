//! Reading records.
use bytes::Bytes;
use http::header::{HeaderMap, HeaderValue};
use vstd::prelude::*;

use crate::barc::compress::{decode, decoded, decoded_head, CompressStrategy};
use crate::barc::head::{
    head_bytes, next_head, read_record_head, BarcError, Compression, Malformed, RecordHead, RecordType, V2_HEAD_SIZE,
};
use crate::barc::record::{MetaRecorded, Record};
use crate::barc::stored::{
    block_reads_back, content, framed_list, is_decoded, is_read_back, is_readable, is_readable_list,
    is_same_content, is_stored, is_stored_plain, law_written_is_stored, lemma_block_len,
    lemma_compressed_read_back, lemma_plain_read_back, lemma_stored_ahead, StoredRecord,
};
use crate::barc::writer::{chosen, fits, framed, raw_head, BarcWriter, WritePlan};
use crate::body::{BodyError, BodyPlan, IoError};
use crate::buf::{bytes_content, Buffers};
use crate::codec::{gunzip, unbrotli};
use crate::headers::{
    crlf, header_block, header_entries, headers_of_spec, parse_headers, parsed_block, HeaderError, Pair,
};
use crate::read_from::{enough, enough_of, lemma_too_long_at, plan_body, too_long_at};
use crate::tune::Tunables;

verus! {

/// Where a body is to be kept, and what its bytes are.
pub enum PlannedBody {
    Ram(Seq<u8>),
    Fs(Seq<u8>),
    Slice(int, int),
}

/// What a record that was read holds.
pub struct ReadRecord {
    pub rec_type: RecordType,
    pub meta: Seq<Pair>,
    pub req_headers: Seq<Pair>,
    pub req_body: PlannedBody,
    pub res_headers: Seq<Pair>,
    pub res_body: PlannedBody,
}

/// Where a body is to be kept, and what its bytes are.
pub open spec fn planned(b: BodyPlan) -> PlannedBody {
    match b {
        BodyPlan::Ram(b) => PlannedBody::Ram(b@),
        BodyPlan::Fs(b) => PlannedBody::Fs(b@),
        BodyPlan::Slice { start, end } => PlannedBody::Slice(start as int, end as int),
    }
}

/// What a record that was read holds.
pub open spec fn record_view(r: Record<BodyPlan>) -> ReadRecord {
    ReadRecord {
        rec_type: r.rec_type,
        meta: header_entries(r.meta),
        req_headers: header_entries(r.req_headers),
        req_body: planned(r.req_body),
        res_headers: header_entries(r.res_headers),
        res_body: planned(r.res_body),
    }
}

/// The headers of a block of some length at a position of the input, which ends
/// with an empty line if the parts of the record do.
pub open spec fn headers_at(data: Seq<u8>, pos: int, with_crlf: bool, len: int) -> Result<
    Seq<Pair>,
    BarcError,
> {
    if len == 0 {
        Ok(Seq::empty())
    } else if len <= 2 {
        Err(BarcError::Malformed(Malformed::TooShort))
    } else if pos + len > data.len() {
        Err(BarcError::Io(IoError::UnexpectedEof))
    } else {
        let block = data.subrange(pos, pos + len) + (if with_crlf {
            Seq::empty()
        } else {
            crlf()
        });
        match headers_of_spec(parsed_block(block), block.len()) {
            Ok(h) => Ok(h),
            Err(e) => Err(BarcError::InvalidHeader(e)),
        }
    }
}

/// The bytes of a body of some length at a position of the input, without the
/// line end that it has if the parts of the record do.
pub open spec fn ram_body_at(data: Seq<u8>, pos: int, with_crlf: bool, len: int) -> Result<Seq<u8>, BarcError> {
    if len == 0 {
        Ok(Seq::empty())
    } else if with_crlf && len <= 2 {
        Err(BarcError::Malformed(Malformed::TooShort))
    } else if pos + len > data.len() {
        Err(BarcError::Io(IoError::UnexpectedEof))
    } else {
        Ok(data.subrange(pos, pos + len - (if with_crlf {
            2int
        } else {
            0
        })))
    }
}

/// The body of some length at a position of a file: in RAM within the limit for
/// that, and else left in the file.
pub open spec fn plain_body_at(data: Seq<u8>, pos: int, len: int, max_body_ram: u64) -> Result<
    PlannedBody,
    BarcError,
> {
    if len <= max_body_ram {
        match ram_body_at(data, pos, true, len) {
            Ok(b) => Ok(PlannedBody::Ram(b)),
            Err(e) => Err(e),
        }
    } else if len <= 2 {
        Err(BarcError::Malformed(Malformed::TooShort))
    } else {
        Ok(PlannedBody::Slice(pos, pos + len - 2))
    }
}

/// The record with a head, not compressed, whose parts start at a position of a
/// file.
pub open spec fn plain_record(data: Seq<u8>, pos: int, h: RecordHead, max_body_ram: u64) -> Result<
    ReadRecord,
    BarcError,
> {
    let p1 = pos + h.meta;
    let p2 = p1 + h.req_h;
    let p3 = p2 + h.req_b;
    let p4 = p3 + h.res_h;
    match headers_at(data, pos, true, h.meta as int) {
        Err(e) => Err(e),
        Ok(meta) => match headers_at(data, p1, true, h.req_h as int) {
            Err(e) => Err(e),
            Ok(req_headers) => match plain_body_at(data, p2, h.req_b as int, max_body_ram) {
                Err(e) => Err(e),
                Ok(req_body) => match headers_at(data, p3, true, h.res_h as int) {
                    Err(e) => Err(e),
                    Ok(res_headers) => if p4 - pos > h.len {
                        Err(BarcError::Malformed(Malformed::TooLong))
                    } else {
                        match plain_body_at(data, p4, h.len - (p4 - pos), max_body_ram) {
                            Err(e) => Err(e),
                            Ok(res_body) => Ok(
                                ReadRecord {
                                    rec_type: h.rec_type,
                                    meta,
                                    req_headers,
                                    req_body,
                                    res_headers,
                                    res_body,
                                },
                            ),
                        }
                    },
                },
            },
        },
    }
}

/// The smaller of two numbers.
pub open spec fn least(a: int, b: int) -> int {
    if a <= b {
        a
    } else {
        b
    }
}

/// The request body of some length at a position of a decoded record: in RAM
/// within the limit for that, and else for a temporary file, which takes what
/// there is of it.
pub open spec fn decoded_req_body(data: Seq<u8>, pos: int, len: int, max_body_ram: u64) -> Result<
    PlannedBody,
    BarcError,
> {
    if len <= max_body_ram {
        match ram_body_at(data, pos, false, len) {
            Ok(b) => Ok(PlannedBody::Ram(b)),
            Err(e) => Err(e),
        }
    } else {
        Ok(PlannedBody::Fs(data.subrange(least(pos, data.len() as int), least(pos + len, data.len() as int))))
    }
}

/// The estimate of the length of the response body of a compressed record.
pub const COMPRESSED_RES_ESTIMATE: u64 = 4096;

/// The response body of a decoded record, which is all that is left of it.
pub open spec fn decoded_res_body(body: Seq<u8>, tune: Tunables) -> Result<PlannedBody, BarcError> {
    let fs = COMPRESSED_RES_ESTIMATE > tune.max_body_ram;
    if body.len() > tune.max_body {
        Err(BarcError::Body(BodyError::BodyTooLong(too_long_at(body.len() as int, 0, fs, tune) as u64)))
    } else if fs || body.len() > tune.max_body_ram {
        Ok(PlannedBody::Fs(body))
    } else {
        Ok(PlannedBody::Ram(body))
    }
}

/// The record with a head, decoded from its compressed form.
pub open spec fn compressed_record(data: Seq<u8>, h: RecordHead, tune: Tunables) -> Result<
    ReadRecord,
    BarcError,
> {
    let p1 = h.meta as int;
    let p2 = p1 + h.req_h;
    let p3 = least(p2 + h.req_b, if h.req_b > tune.max_body_ram {
        data.len() as int
    } else {
        p2 + h.req_b
    });
    let p4 = p3 + h.res_h;
    match headers_at(data, 0, false, h.meta as int) {
        Err(e) => Err(e),
        Ok(meta) => match headers_at(data, p1, false, h.req_h as int) {
            Err(e) => Err(e),
            Ok(req_headers) => match decoded_req_body(data, p2, h.req_b as int, tune.max_body_ram) {
                Err(e) => Err(e),
                Ok(req_body) => match headers_at(data, p3, false, h.res_h as int) {
                    Err(e) => Err(e),
                    Ok(res_headers) => match decoded_res_body(data.skip(p4), tune) {
                        Err(e) => Err(e),
                        Ok(res_body) => Ok(
                            ReadRecord {
                                rec_type: h.rec_type,
                                meta,
                                req_headers,
                                req_body,
                                res_headers,
                                res_body,
                            },
                        ),
                    },
                },
            },
        },
    }
}

/// Read a header block of `len` bytes at a position of the input.
pub fn read_headers(data: &[u8], pos: u64, with_crlf: bool, len: usize) -> (r: Result<
    HeaderMap<HeaderValue>,
    BarcError,
>)
    requires
        pos + len <= u64::MAX,
    ensures
        match headers_at(data@, pos as int, with_crlf, len as int) {
            Ok(h) => r is Ok && header_entries(r->Ok_0) == h,
            Err(e) => r == Err::<HeaderMap<HeaderValue>, BarcError>(e),
        },
        block_reads_back(data@, pos as int, with_crlf, len as int),
{
    proof {
        assert forall|s: Seq<Pair>|
            is_readable_list(s) && len == framed_list(s, with_crlf).len() && len <= 2 implies s.len() == 0
            && len == 0 && #[trigger] header_block(s) == Seq::<u8>::empty() by {
            lemma_block_len(s);
            assert(s =~= Seq::<Pair>::empty());
        }
    }
    if len == 0 {
        proof {
            assert forall|s: Seq<Pair>|
                is_readable_list(s) && len == framed_list(s, with_crlf).len() && data@.subrange(
                    pos as int,
                    pos + len,
                ) == framed(#[trigger] header_block(s), with_crlf) implies headers_at(
                data@,
                pos as int,
                with_crlf,
                len as int,
            ) == Ok::<Seq<Pair>, BarcError>(s) by {
                assert(s =~= Seq::<Pair>::empty());
            }
        }
        return Ok(HeaderMap::new());
    }
    if len <= 2 {
        return Err(BarcError::Malformed(Malformed::TooShort));
    }
    if pos + len as u64 > data.len() as u64 {
        return Err(BarcError::Io(IoError::UnexpectedEof));
    }
    let from: usize = pos as usize;
    let block = vstd::slice::slice_subrange(data, from, from + len);
    let ghost b = data@.subrange(pos as int, pos + len);
    let r = if with_crlf {
        assert(b + Seq::<u8>::empty() =~= b);
        parse_headers(block)
    } else {
        let mut buf: Vec<u8> = Vec::with_capacity(0);
        buf.extend_from_slice(block);
        buf.push(0x0d);
        buf.push(0x0a);
        assert(buf@ =~= b + crlf());
        parse_headers(buf.as_slice())
    };
    proof {
        assert forall|s: Seq<Pair>|
            is_readable_list(s) && len == framed_list(s, with_crlf).len() && data@.subrange(
                pos as int,
                pos + len,
            ) == framed(#[trigger] header_block(s), with_crlf) implies headers_at(
            data@,
            pos as int,
            with_crlf,
            len as int,
        ) == Ok::<Seq<Pair>, BarcError>(s) by {
            assert(header_block(s) + crlf() == (if with_crlf {
                b
            } else {
                b + crlf()
            }));
        }
    }
    match r {
        Ok(h) => Ok(h),
        Err(e) => Err(BarcError::InvalidHeader(e)),
    }
}

/// Read a body of `len` bytes at a position of the input into a single buffer.
pub fn read_body_ram(data: &[u8], pos: u64, with_crlf: bool, len: u64) -> (r: Result<Buffers, BarcError>)
    requires
        pos + len <= u64::MAX,
    ensures
        match ram_body_at(data@, pos as int, with_crlf, len as int) {
            Ok(b) => r is Ok && r->Ok_0@ == b,
            Err(e) => r == Err::<Buffers, BarcError>(e),
        },
{
    let mut bufs = Buffers::with_capacity(1);
    if len == 0 {
        return Ok(bufs);
    }
    if with_crlf && len <= 2 {
        return Err(BarcError::Malformed(Malformed::TooShort));
    }
    if pos + len > data.len() as u64 {
        return Err(BarcError::Io(IoError::UnexpectedEof));
    }
    let from: usize = pos as usize;
    let to: usize = from + len as usize - (if with_crlf { 2 } else { 0 });
    let body = vstd::slice::slice_subrange(data, from, to);
    bufs.push(Bytes::copy_from_slice(body));
    assert(bufs@ =~= body@);
    Ok(bufs)
}

/// Leave a body of `len` bytes at a position of a file where it is.
pub fn slice_body(pos: u64, len: u64) -> (r: Result<BodyPlan, BarcError>)
    requires
        pos + len <= u64::MAX,
    ensures
        r == (if len <= 2 {
            Err(BarcError::Malformed(Malformed::TooShort))
        } else {
            Ok(BodyPlan::Slice { start: pos, end: (pos + len - 2) as u64 })
        }),
{
    if len <= 2 {
        return Err(BarcError::Malformed(Malformed::TooShort));
    }
    Ok(BodyPlan::Slice { start: pos, end: pos + (len - 2) })
}

/// Read a body that is not compressed.
fn read_plain_body(data: &[u8], pos: u64, len: u64, max_body_ram: u64) -> (r: Result<BodyPlan, BarcError>)
    requires
        pos + len <= u64::MAX,
    ensures
        match plain_body_at(data@, pos as int, len as int, max_body_ram) {
            Ok(b) => r is Ok && planned(r->Ok_0) == b && r->Ok_0.wf(),
            Err(e) => r == Err::<BodyPlan, BarcError>(e),
        },
{
    if len <= max_body_ram {
        match read_body_ram(data, pos, true, len) {
            Ok(b) => Ok(BodyPlan::Ram(b)),
            Err(e) => Err(e),
        }
    } else {
        slice_body(pos, len)
    }
}

/// The bytes of a request body of `len` bytes, or what there is of it, for a
/// temporary file.
pub fn read_body_fs(data: &[u8], pos: u64, len: u64) -> (r: Buffers)
    requires
        pos + len <= u64::MAX,
    ensures
        r@ == data@.subrange(
            least(pos as int, data@.len() as int),
            least(pos + len, data@.len() as int),
        ),
{
    let total: u64 = data.len() as u64;
    let from: u64 = if pos <= total { pos } else { total };
    let to: u64 = if pos + len <= total { pos + len } else { total };
    let body = vstd::slice::slice_subrange(data, from as usize, to as usize);
    let mut bufs = Buffers::with_capacity(1);
    bufs.push(Bytes::copy_from_slice(body));
    assert(bufs@ =~= body@);
    bufs
}

/// Make a record of what was decoded from its compressed form.
pub fn read_decoded(data: &[u8], h: &RecordHead, tune: &Tunables) -> (r: Result<Record<BodyPlan>, BarcError>)
    requires
        h.wf(),
        tune.buffer_size_ram > 0,
        tune.buffer_size_fs > 0,
    ensures
        match compressed_record(data@, *h, *tune) {
            Ok(rec) => r is Ok && record_view(r->Ok_0) == rec && r->Ok_0.req_body.wf()
                && r->Ok_0.res_body.wf(),
            Err(e) => r == Err::<Record<BodyPlan>, BarcError>(e),
        },
        forall|c: StoredRecord| #[trigger]
            is_decoded(c, data@, *h, tune.max_body) ==> {
                &&& compressed_record(data@, *h, *tune) is Ok
                &&& forall|input: Seq<u8>| #[trigger]
                    is_same_content(compressed_record(data@, *h, *tune)->Ok_0, c, input)
            },
{
    let meta = read_headers(data, 0, false, h.meta);
    let pos: u64 = h.meta as u64;
    let req_headers = read_headers(data, pos, false, h.req_h);
    let pos: u64 = pos + h.req_h as u64;
    let total: u64 = data.len() as u64;
    let res_pos: u64 = if h.req_b > tune.max_body_ram() && pos + h.req_b > total {
        total
    } else {
        pos + h.req_b
    };
    let res_headers = read_headers(data, res_pos, false, h.res_h);
    proof {
        assert forall|c: StoredRecord| #[trigger] is_decoded(c, data@, *h, tune.max_body) implies {
            &&& compressed_record(data@, *h, *tune) is Ok
            &&& forall|input: Seq<u8>| #[trigger]
                is_same_content(compressed_record(data@, *h, *tune)->Ok_0, c, input)
        } by {
            assert(res_pos == h.meta + h.req_h + h.req_b);
            lemma_compressed_read_back(c, data@, *h, *tune, Seq::empty());
            assert forall|input: Seq<u8>| #[trigger]
                is_same_content(compressed_record(data@, *h, *tune)->Ok_0, c, input) by {
                lemma_compressed_read_back(c, data@, *h, *tune, input);
            }
        }
    }
    let meta = match meta {
        Ok(m) => m,
        Err(e) => {
            return Err(e);
        },
    };
    let req_headers = match req_headers {
        Ok(m) => m,
        Err(e) => {
            return Err(e);
        },
    };
    let req_body = if h.req_b <= tune.max_body_ram() {
        match read_body_ram(data, pos, false, h.req_b) {
            Ok(b) => BodyPlan::Ram(b),
            Err(e) => {
                return Err(e);
            },
        }
    } else {
        BodyPlan::Fs(read_body_fs(data, pos, h.req_b))
    };
    let res_headers = match res_headers {
        Ok(m) => m,
        Err(e) => {
            return Err(e);
        },
    };
    let pos: u64 = res_pos + h.res_h as u64;
    assert(pos <= data@.len());
    let rest = vstd::slice::slice_subrange(data, pos as usize, data.len());
    assert(rest@ =~= data@.skip(pos as int));
    match plan_body(Bytes::copy_from_slice(rest), COMPRESSED_RES_ESTIMATE, tune) {
        Ok(res_body) => Ok(
            Record { rec_type: h.rec_type, meta, req_headers, req_body, res_headers, res_body },
        ),
        Err(e) => Err(BarcError::Body(e)),
    }
}

/// The length of the parts of a decoded record before the response body.
pub open spec fn parts_len(h: RecordHead) -> int {
    h.meta + h.req_h + h.req_b + h.res_h
}

/// What is left of a compressed record after enough of it for the longest
/// response body makes no difference.
proof fn lemma_enough_decoded(all: Seq<u8>, n: int, h: RecordHead, tune: Tunables)
    requires
        parts_len(h) + enough_of(tune) <= n <= all.len(),
        tune.buffer_size_ram > 0,
        tune.buffer_size_fs > 0,
    ensures
        compressed_record(all.take(n), h, tune) == compressed_record(all, h, tune),
        compressed_record(all, h, tune) is Err,
{
    let t = all.take(n);
    let p1 = h.meta as int;
    let p2 = p1 + h.req_h;
    let p3 = p2 + h.req_b;
    let p4 = p3 + h.res_h;
    assert(t.subrange(0, p1) =~= all.subrange(0, p1));
    assert(t.subrange(p1, p2) =~= all.subrange(p1, p2));
    assert(t.subrange(p2, p3) =~= all.subrange(p2, p3));
    assert(t.subrange(p3, p4) =~= all.subrange(p3, p4));
    lemma_too_long_at(
        t.skip(p4).len() as int,
        all.skip(p4).len() as int,
        0,
        COMPRESSED_RES_ESTIMATE > tune.max_body_ram,
        tune,
    );
}

/// How many bytes of a compressed record are decoded at most: those of its parts,
/// and enough for the longest response body.
pub open spec fn decode_limit(h: RecordHead, tune: Tunables) -> u64 {
    if parts_len(h) + enough_of(tune) <= u64::MAX {
        (parts_len(h) + enough_of(tune)) as u64
    } else {
        u64::MAX
    }
}

/// What is wrong with a compressed record that cannot be decoded.
pub enum StreamFault {
    /// One of the parts that come before the fault is not valid.
    Part(BarcError),
    /// The fault is in the parts before the response body.
    Head,
    /// The fault is in the response body.
    Body,
}

/// What is wrong with the parts of a compressed record up to some length, if
/// anything is.
pub open spec fn fault_within(stored: Seq<u8>, limit: u64, h: RecordHead, tune: Tunables) -> Option<StreamFault> {
    match decoded_head(h.compress, stored, limit) {
        None => Some(StreamFault::Head),
        Some(raw) => match compressed_record(raw, h, tune) {
            Err(BarcError::Io(IoError::UnexpectedEof)) => None,
            Err(e) => Some(StreamFault::Part(e)),
            Ok(_) => None,
        },
    }
}

/// What is wrong with a compressed record that cannot be decoded: the first thing
/// that is found when it is read part by part.
pub open spec fn fault_of(stored: Seq<u8>, h: RecordHead, tune: Tunables) -> StreamFault {
    match fault_within(stored, h.meta as u64, h, tune) {
        Some(f) => f,
        None => match fault_within(stored, (h.meta + h.req_h) as u64, h, tune) {
            Some(f) => f,
            None => match fault_within(stored, parts_len(h) as u64, h, tune) {
                Some(f) => f,
                None => StreamFault::Body,
            },
        },
    }
}

/// Whether a failure is the one for a fault, with the decoder's own error where it
/// is the decoder that failed.
pub open spec fn is_fault(e: BarcError, f: StreamFault) -> bool {
    match f {
        StreamFault::Part(x) => e == x,
        StreamFault::Head => e matches BarcError::Io(IoError::Outside(_)),
        StreamFault::Body => e matches BarcError::Body(BodyError::Io(IoError::Outside(_))),
    }
}

/// Read the parts of a compressed record up to some length, for the failure if
/// there is one.
fn find_fault(stored: &[u8], limit: u64, h: &RecordHead, tune: &Tunables) -> (r: Option<BarcError>)
    requires
        h.wf(),
        !(h.compress is Plain),
        tune.buffer_size_ram > 0,
        tune.buffer_size_fs > 0,
    ensures
        match fault_within(stored@, limit, *h, *tune) {
            Some(f) => r is Some && is_fault(r->0, f),
            None => r is None,
        },
{
    match decode(h.compress, stored, limit) {
        Err(e) => Some(e),
        Ok(raw) => match read_decoded(raw.as_slice(), h, tune) {
            Err(BarcError::Io(IoError::UnexpectedEof)) => None,
            Err(e) => Some(e),
            Ok(_) => None,
        },
    }
}

/// The outcome of reading a record from the bytes of its compressed form.
pub open spec fn is_read_compressed(
    stored: Seq<u8>,
    h: RecordHead,
    tune: Tunables,
    r: Result<Record<BodyPlan>, BarcError>,
) -> bool {
    if h.compress is Plain {
        r == Err::<Record<BodyPlan>, BarcError>(BarcError::DecoderUnsupported(h.compress))
    } else {
        match decoded_head(h.compress, stored, decode_limit(h, tune)) {
            None => r is Err && is_fault(r->Err_0, fault_of(stored, h, tune)),
            Some(raw) => match compressed_record(raw, h, tune) {
                Ok(rec) => r is Ok && record_view(r->Ok_0) == rec && r->Ok_0.req_body.wf()
                    && r->Ok_0.res_body.wf(),
                Err(e) => r == Err::<Record<BodyPlan>, BarcError>(e),
            },
        }
    }
}

/// Decode and read a record from the bytes of its compressed form. Where they
/// cannot be decoded, what comes before the fault is read for what is wrong first.
pub fn read_compressed(stored: &[u8], h: &RecordHead, tune: &Tunables) -> (r: Result<
    Record<BodyPlan>,
    BarcError,
>)
    requires
        h.wf(),
        tune.buffer_size_ram > 0,
        tune.buffer_size_fs > 0,
    ensures
        is_read_compressed(stored@, *h, *tune, r),
        decoded(h.compress, stored@) matches Some(raw) ==> match compressed_record(raw, *h, *tune) {
            Ok(rec) => r is Ok && record_view(r->Ok_0) == rec && r->Ok_0.req_body.wf() && r->Ok_0.res_body.wf(),
            Err(e) => r == Err::<Record<BodyPlan>, BarcError>(e),
        },
        decoded(h.compress, stored@) is None ==> r is Err,
        forall|c: StoredRecord, raw: Seq<u8>| #[trigger]
            is_decoded(c, raw, *h, tune.max_body) && decoded(h.compress, stored@) == Some(raw) ==> {
                &&& compressed_record(raw, *h, *tune) is Ok
                &&& forall|input: Seq<u8>| #[trigger]
                    is_same_content(compressed_record(raw, *h, *tune)->Ok_0, c, input)
            },
{
    let parts: u64 = (h.meta + h.req_h + h.res_h) as u64 + h.req_b;
    let limit: u64 = parts.saturating_add(enough(tune));
    assert(limit == decode_limit(*h, *tune));
    match decode(h.compress, stored, limit) {
        Ok(raw) => {
            proof {
                match decoded(h.compress, stored@) {
                    Some(all) => {
                        if all.len() <= limit {
                            assert(all.take(all.len() as int) =~= all);
                        } else {
                            lemma_enough_decoded(all, limit as int, *h, *tune);
                        }
                    },
                    None => {
                        assert(raw@.take(limit as int) =~= raw@);
                        lemma_enough_decoded(raw@, limit as int, *h, *tune);
                    },
                }
            }
            read_decoded(raw.as_slice(), h, tune)
        },
        Err(e) => {
            if h.compress == Compression::Plain {
                return Err(e);
            }
            if let Some(e) = find_fault(stored, h.meta as u64, h, tune) {
                return Err(e);
            }
            if let Some(e) = find_fault(stored, (h.meta + h.req_h) as u64, h, tune) {
                return Err(e);
            }
            if let Some(e) = find_fault(stored, parts, h, tune) {
                return Err(e);
            }
            match e {
                BarcError::Io(e) => Err(BarcError::Body(BodyError::Io(e))),
                e => Err(e),
            }
        },
    }
}

/// Read a record that is not compressed, whose parts start at a position of a
/// file.
pub fn read_plain(data: &[u8], pos: u64, h: &RecordHead, max_body_ram: u64) -> (r: Result<
    Record<BodyPlan>,
    BarcError,
>)
    requires
        h.wf(),
        pos <= data@.len() <= 0x7fff_ffff_ffff_ffff,
    ensures
        match plain_record(data@, pos as int, *h, max_body_ram) {
            Ok(rec) => r is Ok && record_view(r->Ok_0) == rec && r->Ok_0.req_body.wf()
                && r->Ok_0.res_body.wf(),
            Err(e) => r == Err::<Record<BodyPlan>, BarcError>(e),
        },
        forall|c: StoredRecord| #[trigger]
            is_stored_plain(c, data@, pos as int, *h) ==> plain_record(data@, pos as int, *h, max_body_ram) is Ok
                && is_same_content(plain_record(data@, pos as int, *h, max_body_ram)->Ok_0, c, data@),
{
    let start: u64 = pos;
    let meta = read_headers(data, pos, true, h.meta);
    let pos: u64 = pos + h.meta as u64;
    let req_headers = read_headers(data, pos, true, h.req_h);
    let pos: u64 = pos + h.req_h as u64;
    let req_body = read_plain_body(data, pos, h.req_b, max_body_ram);
    let pos: u64 = pos + h.req_b;
    let res_headers = read_headers(data, pos, true, h.res_h);
    proof {
        assert forall|c: StoredRecord| #[trigger] is_stored_plain(c, data@, start as int, *h) implies plain_record(
            data@,
            start as int,
            *h,
            max_body_ram,
        ) is Ok && is_same_content(plain_record(data@, start as int, *h, max_body_ram)->Ok_0, c, data@) by {
            lemma_plain_read_back(c, data@, start as int, *h, max_body_ram);
        }
    }
    let meta = match meta {
        Ok(m) => m,
        Err(e) => {
            return Err(e);
        },
    };
    let req_headers = match req_headers {
        Ok(m) => m,
        Err(e) => {
            return Err(e);
        },
    };
    let req_body = match req_body {
        Ok(b) => b,
        Err(e) => {
            return Err(e);
        },
    };
    let res_headers = match res_headers {
        Ok(m) => m,
        Err(e) => {
            return Err(e);
        },
    };
    let pos: u64 = pos + h.res_h as u64;
    if pos - start > h.len {
        return Err(BarcError::Malformed(Malformed::TooLong));
    }
    let body_len: u64 = h.len - (pos - start);
    match read_plain_body(data, pos, body_len, max_body_ram) {
        Ok(res_body) => Ok(
            Record { rec_type: h.rec_type, meta, req_headers, req_body, res_headers, res_body },
        ),
        Err(e) => Err(e),
    }
}

/// The bytes of the compressed form of a record, as far as a file has them.
pub open spec fn compressed_bytes(data: Seq<u8>, pos: int, h: RecordHead) -> Seq<u8> {
    data.subrange(pos, least(pos + h.len, data.len() as int))
}

/// Whether a record that is stored at the position of a reader is read back, and the
/// reader is moved past it. Where it is compressed the response body has to be
/// within the limit.
pub open spec fn are_read_back(
    before: BarcReader,
    after: BarcReader,
    data: Seq<u8>,
    tune: Tunables,
    r: Result<Option<Record<BodyPlan>>, BarcError>,
) -> bool {
    forall|c: StoredRecord, h: RecordHead, bytes: Seq<u8>| #[trigger]
        is_stored(c, h, bytes, before.ahead(data)) && (h.compress is Plain || c.res_body.len() <= tune.max_body)
            ==> {
            &&& r matches Ok(Some(got)) && is_read_back(got, c, data)
            &&& after.pos == before.pos + V2_HEAD_SIZE + bytes.len()
        }
}

/// The reader of a file, with its own position.
pub struct BarcReader {
    pub pos: u64,
}

impl BarcReader {
    /// A reader at the start of a file.
    pub fn new() -> (r: BarcReader)
        ensures
            r.pos == 0,
    {
        BarcReader { pos: 0 }
    }

    /// The current offset. It starts as 0, and is advanced by each record that
    /// is read.
    pub fn offset(&self) -> (r: u64)
        ensures
            r == self.pos,
    {
        self.pos
    }

    /// Move to an offset from the start of the file.
    pub fn seek(&mut self, offset: u64)
        ensures
            final(self).pos == offset,
    {
        self.pos = offset;
    }

    /// The bytes of a file from the current offset on.
    pub open spec fn ahead(&self, data: Seq<u8>) -> Seq<u8> {
        data.skip(least(self.pos as int, data.len() as int))
    }

    /// Read the next record. `data` is all of the file, which no slice can
    /// exceed in length. `None` at the end of the file, and at a head that is
    /// reserved for a record which is still being written: then the offset is
    /// unchanged, as it is on failure.
    pub fn read(&mut self, data: &[u8], tune: &Tunables) -> (r: Result<Option<Record<BodyPlan>>, BarcError>)
        requires
            data@.len() <= 0x7fff_ffff_ffff_ffff,
            tune.buffer_size_ram > 0,
            tune.buffer_size_fs > 0,
        ensures
            !(r matches Ok(Some(_))) ==> final(self).pos == old(self).pos,
            match next_head(old(self).ahead(data@)) {
                Err(e) => r == Err::<Option<Record<BodyPlan>>, BarcError>(e),
                Ok(None) => r matches Ok(None),
                Ok(Some(h)) => if h.rec_type is Reserved {
                    r matches Ok(None)
                } else {
                    let start = old(self).pos + V2_HEAD_SIZE;
                    &&& r matches Ok(Some(_)) ==> final(self).pos == start + h.len
                    &&& if h.compress is Plain {
                        match plain_record(data@, start, h, tune.max_body_ram) {
                            Ok(rec) => r matches Ok(Some(got)) && record_view(got) == rec && got.req_body.wf()
                                && got.res_body.wf(),
                            Err(e) => r == Err::<Option<Record<BodyPlan>>, BarcError>(e),
                        }
                    } else {
                        let stored = compressed_bytes(data@, start, h);
                        &&& !(r matches Ok(None))
                        &&& is_read_compressed(
                            stored,
                            h,
                            *tune,
                            match r {
                                Ok(rec) => Ok(rec->0),
                                Err(e) => Err(e),
                            },
                        )
                        &&& decoded(h.compress, stored) matches Some(raw) ==> match compressed_record(
                            raw,
                            h,
                            *tune,
                        ) {
                            Ok(rec) => r matches Ok(Some(got)) && record_view(got) == rec
                                && got.req_body.wf() && got.res_body.wf(),
                            Err(e) => r == Err::<Option<Record<BodyPlan>>, BarcError>(e),
                        }
                    }
                },
            },
            are_read_back(*old(self), *final(self), data@, *tune, r),
    {
        let total: u64 = data.len() as u64;
        let from: usize = if self.pos <= total { self.pos as usize } else { data.len() };
        let ahead = vstd::slice::slice_subrange(data, from, data.len());
        assert(ahead@ =~= self.ahead(data@));
        proof {
            assert forall|c: StoredRecord, h: RecordHead, bytes: Seq<u8>| #[trigger]
                is_stored(c, h, bytes, self.ahead(data@)) implies {
                &&& next_head(self.ahead(data@)) == Ok::<Option<RecordHead>, BarcError>(Some(h))
                &&& !(h.rec_type is Reserved)
                &&& from == self.pos
                &&& h.len == bytes.len()
                &&& h.compress is Plain ==> is_stored_plain(c, data@, self.pos + V2_HEAD_SIZE, h)
                &&& compressed_bytes(data@, self.pos + V2_HEAD_SIZE, h) == bytes
            } by {
                crate::barc::head::lemma_head_len(h);
                assert(self.ahead(data@).len() >= V2_HEAD_SIZE);
                lemma_stored_ahead(c, h, bytes, data@, from as int);
            }
        }
        let h = match read_record_head(ahead) {
            Ok(Some(h)) => h,
            Ok(None) => {
                return Ok(None);
            },
            Err(e) => {
                return Err(e);
            },
        };
        if h.rec_type == RecordType::Reserved {
            return Ok(None);
        }
        let start: u64 = self.pos + V2_HEAD_SIZE as u64;
        let end: u64 = start + h.len;
        let rec = if h.compress == Compression::Plain {
            match read_plain(data, start, &h, tune.max_body_ram()) {
                Ok(rec) => rec,
                Err(e) => {
                    return Err(e);
                },
            }
        } else {
            let to: usize = if end <= total { end as usize } else { data.len() };
            let stored = vstd::slice::slice_subrange(data, start as usize, to);
            proof {
                assert(stored@ == compressed_bytes(data@, start as int, h));
                assert forall|c: StoredRecord, g: RecordHead, bytes: Seq<u8>| #[trigger]
                    is_stored(c, g, bytes, old(self).ahead(data@)) && c.res_body.len()
                        <= tune.max_body implies decoded(h.compress, stored@) is Some && is_decoded(
                    c,
                    decoded(h.compress, stored@)->0,
                    h,
                    tune.max_body,
                ) by {
                    assert(g == h);
                    assert(bytes == stored@);
                }
            }
            match read_compressed(stored, &h, tune) {
                Ok(rec) => rec,
                Err(e) => {
                    return Err(e);
                },
            }
        };
        self.pos = end;
        proof {
            assert forall|c: StoredRecord, g: RecordHead, bytes: Seq<u8>| #[trigger]
                is_stored(c, g, bytes, old(self).ahead(data@)) && (g.compress is Plain || c.res_body.len()
                    <= tune.max_body) implies is_read_back(rec, c, data@) && g == h by {
                assert(is_same_content(record_view(rec), c, data@));
            }
        }
        Ok(Some(rec))
    }
}

/// A record that was written is read back from the file: of the same type, with the
/// same headers and the same bodies, wherever they are kept. The reader is then at
/// the end of the record, which is where the writer writes the next one. What is in
/// the file before and after the record makes no difference.
#[verifier::spinoff_prover]
#[verifier::rlimit(60)]
pub proof fn law_record_comes_back<R: MetaRecorded<B = Buffers>, S: CompressStrategy>(
    w: &mut BarcWriter,
    rec: &R,
    strategy: &S,
    plan: WritePlan,
    before: Seq<u8>,
    after: Seq<u8>,
    reader: &mut BarcReader,
    data: &[u8],
    tune: &Tunables,
    r: Result<Option<Record<BodyPlan>>, BarcError>,
)
    requires
        is_readable(content(*rec)),
        fits(*rec, chosen(*rec, *strategy).0 is Plain),
        rec.spec_res_body()@.len() <= tune.max_body,
        call_ensures(BarcWriter::write::<R, S>, (w, rec, strategy), Ok(Some(plan))),
        before.len() == plan.start,
        data@ == before + plan.head@ + plan.payload@ + after,
        old(reader).pos == plan.start,
        call_ensures(BarcReader::read, (reader, data, tune), r),
    ensures
        r matches Ok(Some(got)) && {
            &&& got.rec_type == rec.spec_rec_type()
            &&& header_entries(got.meta) == header_entries(rec.spec_meta())
            &&& header_entries(got.req_headers) == header_entries(rec.spec_req_headers())
            &&& header_entries(got.res_headers) == header_entries(rec.spec_res_headers())
            &&& rec.spec_req_body()@ == (match got.req_body {
                BodyPlan::Ram(b) => b@,
                BodyPlan::Fs(b) => b@,
                BodyPlan::Slice { start, end } => data@.subrange(start as int, end as int),
            })
            &&& rec.spec_res_body()@ == (match got.res_body {
                BodyPlan::Ram(b) => b@,
                BodyPlan::Fs(b) => b@,
                BodyPlan::Slice { start, end } => data@.subrange(start as int, end as int),
            })
        },
        final(reader).pos == final(w).end,
        final(reader).pos == plan.start + 54 + plan.payload@.len(),
{
    let (mode, level) = chosen(*rec, *strategy);
    let h = RecordHead { len: plan.payload@.len() as u64, ..raw_head(*rec, mode) };
    let c = content(*rec);
    law_written_is_stored(*rec, mode, level, plan.payload@, after);
    let ahead = old(reader).ahead(data@);
    assert(ahead =~= head_bytes(h) + plan.payload@ + after);
    assert(is_stored(c, h, plan.payload@, ahead));
}

/// A reader starts at the first record, and goes where it is told to.
pub proof fn law_reader_positions(new: BarcReader, r: &mut BarcReader, offset: u64, at: u64, first: u64)
    requires
        call_ensures(BarcReader::new, (), new),
        call_ensures(BarcReader::seek, (r, offset), ()),
        call_ensures(BarcReader::offset, (&*final(r),), at),
        call_ensures(BarcReader::offset, (&new,), first),
    ensures
        first == 0,
        at == offset,
{
}

/// Where there is no head, one that is not valid or not complete, or one that is
/// reserved, no record is read, and the reader stays where it is. Otherwise, if
/// reading succeeds, it moves past the head and the length that the head gives, and
/// the record is of the type of the head.
pub proof fn law_reading_goes_by_heads(
    reader: &mut BarcReader,
    data: &[u8],
    ahead: &[u8],
    tune: &Tunables,
    head: Result<Option<RecordHead>, BarcError>,
    r: Result<Option<Record<BodyPlan>>, BarcError>,
)
    requires
        ahead@ == data@.skip(if old(reader).pos <= data@.len() {
            old(reader).pos as int
        } else {
            data@.len() as int
        }),
        call_ensures(read_record_head, (ahead,), head),
        call_ensures(BarcReader::read, (reader, data, tune), r),
    ensures
        head is Err ==> r is Err && r->Err_0 == head->Err_0,
        head matches Ok(None) ==> (r matches Ok(None)),
        head matches Ok(Some(h)) ==> {
            &&& (r matches Ok(None)) <==> h.rec_type is Reserved
            &&& (r matches Ok(Some(got)) ==> got.rec_type == h.rec_type && final(reader).pos == old(reader).pos + 54
                + h.len)
        },
        !(r matches Ok(Some(_))) ==> final(reader).pos == old(reader).pos,
{
}

/// A body of a record that is not compressed is kept in RAM up to the limit for
/// that, and is else left in the file. Either way it is the bytes in the file before
/// the end of a line that follows them.
pub proof fn law_plain_bodies(data: Seq<u8>, pos: int, len: int, max_body_ram: u64)
    requires
        0 <= pos,
        2 < len,
        pos + len <= data.len(),
    ensures
        ({
            let body = data.subrange(pos, pos + len - 2);
            &&& len <= max_body_ram ==> plain_body_at(data, pos, len, max_body_ram) == Ok::<PlannedBody, BarcError>(
                PlannedBody::Ram(body),
            )
            &&& len > max_body_ram ==> plain_body_at(data, pos, len, max_body_ram) == Ok::<PlannedBody, BarcError>(
                PlannedBody::Slice(pos, pos + len - 2),
            )
        }),
        plain_body_at(data, pos, 0, max_body_ram) == Ok::<PlannedBody, BarcError>(PlannedBody::Ram(Seq::empty())),
{
}

/// A body is read as it is in the input, without the end of the line that follows it
/// where there is one. It fails where the input ends before, and where there is no
/// room for the end of the line.
pub proof fn law_bodies_are_read(
    data: &[u8],
    pos: u64,
    len: u64,
    plain: Result<Buffers, BarcError>,
    raw: Result<Buffers, BarcError>,
    slice: Result<BodyPlan, BarcError>,
    fs: Buffers,
)
    requires
        pos + len <= u64::MAX,
        call_ensures(read_body_ram, (data, pos, true, len), plain),
        call_ensures(read_body_ram, (data, pos, false, len), raw),
        call_ensures(slice_body, (pos, len), slice),
        call_ensures(read_body_fs, (data, pos, len), fs),
    ensures
        len == 0 ==> plain is Ok && plain->Ok_0@.len() == 0 && raw is Ok && raw->Ok_0@.len() == 0,
        len > 0 ==> (raw is Ok <==> pos + len <= data@.len()),
        len > 0 && raw is Ok ==> raw->Ok_0@ == data@.subrange(pos as int, pos + len),
        len > 2 ==> (plain is Ok <==> pos + len <= data@.len()),
        len > 2 && plain is Ok ==> plain->Ok_0@ == data@.subrange(pos as int, pos + len - 2),
        0 < len <= 2 ==> plain == Err::<Buffers, BarcError>(BarcError::Malformed(Malformed::TooShort)),
        len > 2 && pos + len > data@.len() ==> plain == Err::<Buffers, BarcError>(
            BarcError::Io(IoError::UnexpectedEof),
        ),
        slice is Ok <==> len > 2,
        slice is Ok ==> slice->Ok_0 == (BodyPlan::Slice { start: pos, end: (pos + len - 2) as u64 }),
        pos + len <= data@.len() ==> fs@ == data@.subrange(pos as int, pos + len),
        pos <= data@.len() < pos + len ==> fs@ == data@.skip(pos as int),
{
    if pos <= data@.len() < pos + len {
        assert(fs@ =~= data@.skip(pos as int));
    }
}

/// Where the bodies of a record are kept goes by the limits: in RAM only up to the
/// maximum for that. The response body of a compressed record is never longer than
/// the maximum, and those of a record that is not compressed are never written to a
/// new file.
pub proof fn law_bodies_within_limits(
    reader: &mut BarcReader,
    data: &[u8],
    tune: &Tunables,
    ahead: &[u8],
    h: RecordHead,
    got: Record<BodyPlan>,
)
    requires
        ahead@ == data@.skip(old(reader).pos as int),
        old(reader).pos <= data@.len(),
        call_ensures(read_record_head, (ahead,), Ok(Some(h))),
        call_ensures(BarcReader::read, (reader, data, tune), Ok(Some(got))),
    ensures
        got.req_body matches BodyPlan::Ram(b) ==> b@.len() <= tune.max_body_ram,
        got.res_body matches BodyPlan::Ram(b) ==> b@.len() <= tune.max_body_ram,
        h.compress is Plain ==> !(got.req_body is Fs) && !(got.res_body is Fs),
        !(h.compress is Plain) ==> !(got.req_body is Slice) && !(got.res_body is Slice),
        !(h.compress is Plain) ==> (match got.res_body {
            BodyPlan::Ram(b) => b@.len() <= tune.max_body,
            BodyPlan::Fs(b) => b@.len() <= tune.max_body,
            BodyPlan::Slice { .. } => false,
        }),
{
    let start = old(reader).pos + V2_HEAD_SIZE;
    assert(ahead@ == old(reader).ahead(data@));
    assert(planned(got.req_body) == record_view(got).req_body);
    assert(planned(got.res_body) == record_view(got).res_body);
}

/// The headers of a block at a position of the input are what is parsed of these
/// bytes, with an empty line after them unless they have it. It fails where the
/// input ends before, or where there is no room for a header. Without any bytes
/// there are no headers.
pub proof fn law_headers_are_read(
    data: &[u8],
    pos: u64,
    with_crlf: bool,
    len: usize,
    block: &[u8],
    parsed: Result<HeaderMap<HeaderValue>, HeaderError>,
    r: Result<HeaderMap<HeaderValue>, BarcError>,
)
    requires
        pos + len <= data@.len() ==> block@ == data@.subrange(pos as int, pos + len) + (if with_crlf {
            Seq::<u8>::empty()
        } else {
            seq![0x0du8, 0x0a]
        }),
        call_ensures(parse_headers, (block,), parsed),
        call_ensures(read_headers, (data, pos, with_crlf, len), r),
    ensures
        len == 0 ==> r is Ok && header_entries(r->Ok_0).len() == 0,
        len == 1 || len == 2 ==> r == Err::<HeaderMap<HeaderValue>, BarcError>(
            BarcError::Malformed(Malformed::TooShort),
        ),
        len > 2 && pos + len > data@.len() ==> r == Err::<HeaderMap<HeaderValue>, BarcError>(
            BarcError::Io(IoError::UnexpectedEof),
        ),
        len > 2 && pos + len <= data@.len() ==> match parsed {
            Ok(m) => r is Ok && header_entries(r->Ok_0) == header_entries(m),
            Err(e) => r == Err::<HeaderMap<HeaderValue>, BarcError>(BarcError::InvalidHeader(e)),
        },
{
    assert(crlf() =~= seq![0x0du8, 0x0a]);
}

/// A record that is not compressed is read part by part, each after the one before:
/// the meta headers, the request headers and body, and the response headers and body,
/// which is all that is left of the length in the head. The first part that fails is
/// what the record fails with. Bodies above the limit for RAM are left in the file.
pub proof fn law_plain_record_is_read(
    data: &[u8],
    pos: u64,
    h: &RecordHead,
    max_body_ram: u64,
    p1: u64,
    p2: u64,
    p3: u64,
    p4: u64,
    left: u64,
    meta: Result<HeaderMap<HeaderValue>, BarcError>,
    req_headers: Result<HeaderMap<HeaderValue>, BarcError>,
    res_headers: Result<HeaderMap<HeaderValue>, BarcError>,
    req_ram: Result<Buffers, BarcError>,
    req_slice: Result<BodyPlan, BarcError>,
    res_ram: Result<Buffers, BarcError>,
    res_slice: Result<BodyPlan, BarcError>,
    r: Result<Record<BodyPlan>, BarcError>,
)
    requires
        p1 == pos + h.meta,
        p2 == p1 + h.req_h,
        p3 == p2 + h.req_b,
        p4 == p3 + h.res_h,
        p4 - pos <= h.len ==> left == h.len - (p4 - pos),
        p4 + left <= u64::MAX,
        call_ensures(read_headers, (data, pos, true, h.meta), meta),
        call_ensures(read_headers, (data, p1, true, h.req_h), req_headers),
        call_ensures(read_headers, (data, p3, true, h.res_h), res_headers),
        call_ensures(read_body_ram, (data, p2, true, h.req_b), req_ram),
        call_ensures(slice_body, (p2, h.req_b), req_slice),
        call_ensures(read_body_ram, (data, p4, true, left), res_ram),
        call_ensures(slice_body, (p4, left), res_slice),
        call_ensures(read_plain, (data, pos, h, max_body_ram), r),
    ensures
        ({
            let req_in_ram = h.req_b <= max_body_ram;
            let res_in_ram = left <= max_body_ram;
            let upto_req = meta is Ok && req_headers is Ok;
            let upto_req_body = upto_req && (if req_in_ram {
                req_ram is Ok
            } else {
                req_slice is Ok
            });
            let upto_res = upto_req_body && res_headers is Ok;
            &&& meta is Err ==> r is Err && r->Err_0 == meta->Err_0
            &&& meta is Ok && req_headers is Err ==> r is Err && r->Err_0 == req_headers->Err_0
            &&& upto_req && req_in_ram && req_ram is Err ==> r is Err && r->Err_0 == req_ram->Err_0
            &&& upto_req && !req_in_ram && req_slice is Err ==> r is Err && r->Err_0 == req_slice->Err_0
            &&& upto_req_body && res_headers is Err ==> r is Err && r->Err_0 == res_headers->Err_0
            &&& upto_res && p4 - pos > h.len ==> r == Err::<Record<BodyPlan>, BarcError>(
                BarcError::Malformed(Malformed::TooLong),
            )
            &&& upto_res && p4 - pos <= h.len && res_in_ram && res_ram is Err ==> r is Err && r->Err_0
                == res_ram->Err_0
            &&& upto_res && p4 - pos <= h.len && !res_in_ram && res_slice is Err ==> r is Err && r->Err_0
                == res_slice->Err_0
            &&& r is Ok <==> upto_res && p4 - pos <= h.len && (if res_in_ram {
                res_ram is Ok
            } else {
                res_slice is Ok
            })
            &&& r matches Ok(rec) ==> {
                &&& rec.rec_type == h.rec_type
                &&& header_entries(rec.meta) == header_entries(meta->Ok_0)
                &&& header_entries(rec.req_headers) == header_entries(req_headers->Ok_0)
                &&& header_entries(rec.res_headers) == header_entries(res_headers->Ok_0)
                &&& req_in_ram ==> (rec.req_body matches BodyPlan::Ram(b) && b@ == req_ram->Ok_0@)
                &&& !req_in_ram ==> rec.req_body == req_slice->Ok_0
                &&& res_in_ram ==> (rec.res_body matches BodyPlan::Ram(b) && b@ == res_ram->Ok_0@)
                &&& !res_in_ram ==> rec.res_body == res_slice->Ok_0
            }
        }),
{
    if r is Ok {
        let rec = r->Ok_0;
        assert(planned(rec.req_body) == record_view(rec).req_body);
        assert(planned(rec.res_body) == record_view(rec).res_body);
    }
}

/// A record that was decoded is read part by part as well, without the ends of lines.
/// A request body above the limit for RAM goes to a file, as far as there is any of
/// it. The response body is all that is left, and is kept by the limits.
pub proof fn law_decoded_record_is_read(
    data: &[u8],
    h: &RecordHead,
    tune: &Tunables,
    p1: u64,
    p2: u64,
    p3: u64,
    meta: Result<HeaderMap<HeaderValue>, BarcError>,
    req_headers: Result<HeaderMap<HeaderValue>, BarcError>,
    res_headers: Result<HeaderMap<HeaderValue>, BarcError>,
    req_ram: Result<Buffers, BarcError>,
    req_fs: Buffers,
    rest: Bytes,
    res_body: Result<BodyPlan, BodyError>,
    r: Result<Record<BodyPlan>, BarcError>,
)
    requires
        p1 == h.meta,
        p2 == p1 + h.req_h,
        p2 + h.req_b <= data@.len() || h.req_b <= tune.max_body_ram ==> p3 == p2 + h.req_b,
        p2 + h.req_b > data@.len() && h.req_b > tune.max_body_ram ==> p3 == data@.len(),
        bytes_content(rest) == data@.skip(p3 + h.res_h),
        call_ensures(read_headers, (data, 0, false, h.meta), meta),
        call_ensures(read_headers, (data, p1, false, h.req_h), req_headers),
        call_ensures(read_headers, (data, p3, false, h.res_h), res_headers),
        call_ensures(read_body_ram, (data, p2, false, h.req_b), req_ram),
        call_ensures(read_body_fs, (data, p2, h.req_b), req_fs),
        call_ensures(plan_body, (rest, 4096, tune), res_body),
        call_ensures(read_decoded, (data, h, tune), r),
    ensures
        ({
            let in_ram = h.req_b <= tune.max_body_ram;
            let upto_req = meta is Ok && req_headers is Ok;
            let upto_req_body = upto_req && (in_ram ==> req_ram is Ok);
            let upto_res = upto_req_body && res_headers is Ok;
            &&& meta is Err ==> r is Err && r->Err_0 == meta->Err_0
            &&& meta is Ok && req_headers is Err ==> r is Err && r->Err_0 == req_headers->Err_0
            &&& upto_req && in_ram && req_ram is Err ==> r is Err && r->Err_0 == req_ram->Err_0
            &&& upto_req_body && res_headers is Err ==> r is Err && r->Err_0 == res_headers->Err_0
            &&& upto_res && res_body is Err ==> r is Err && r->Err_0 == BarcError::Body(res_body->Err_0)
            &&& r is Ok <==> upto_res && res_body is Ok
            &&& r matches Ok(rec) ==> {
                &&& rec.rec_type == h.rec_type
                &&& header_entries(rec.meta) == header_entries(meta->Ok_0)
                &&& header_entries(rec.req_headers) == header_entries(req_headers->Ok_0)
                &&& header_entries(rec.res_headers) == header_entries(res_headers->Ok_0)
                &&& in_ram ==> (rec.req_body matches BodyPlan::Ram(b) && b@ == req_ram->Ok_0@)
                &&& !in_ram ==> (rec.req_body matches BodyPlan::Fs(b) && b@ == req_fs@)
                &&& res_body matches Ok(BodyPlan::Ram(b)) ==> (rec.res_body matches BodyPlan::Ram(c) && c@ == b@)
                &&& res_body matches Ok(BodyPlan::Fs(b)) ==> (rec.res_body matches BodyPlan::Fs(c) && c@ == b@)
            }
        }),
{
    if r is Ok {
        let rec = r->Ok_0;
        assert(planned(rec.req_body) == record_view(rec).req_body);
        assert(planned(rec.res_body) == record_view(rec).res_body);
    }
}

/// A compressed record is read of all that is decompressed by the method of its head,
/// and fails where that fails.
pub proof fn law_compressed_record_is_read(
    stored: &[u8],
    h: &RecordHead,
    tune: &Tunables,
    zip: Result<Vec<u8>, IoError>,
    brotli: Result<Vec<u8>, IoError>,
    raw: &[u8],
    q: Result<Record<BodyPlan>, BarcError>,
    r: Result<Record<BodyPlan>, BarcError>,
)
    requires
        call_ensures(gunzip, (stored, u64::MAX), zip),
        call_ensures(unbrotli, (stored, u64::MAX), brotli),
        h.compress is Gzip && zip is Ok ==> raw@ == zip->Ok_0@,
        h.compress is Brotli && brotli is Ok ==> raw@ == brotli->Ok_0@,
        call_ensures(read_decoded, (raw, h, tune), q),
        call_ensures(read_compressed, (stored, h, tune), r),
    ensures
        h.compress is Gzip && zip is Err ==> r is Err,
        h.compress is Brotli && brotli is Err ==> r is Err,
        (h.compress is Gzip && zip is Ok) || (h.compress is Brotli && brotli is Ok) ==> {
            &&& r is Ok <==> q is Ok
            &&& r is Err ==> r->Err_0 == q->Err_0
            &&& r matches Ok(rec) ==> {
                &&& rec.rec_type == q->Ok_0.rec_type
                &&& header_entries(rec.meta) == header_entries(q->Ok_0.meta)
                &&& header_entries(rec.req_headers) == header_entries(q->Ok_0.req_headers)
                &&& header_entries(rec.res_headers) == header_entries(q->Ok_0.res_headers)
                &&& q->Ok_0.req_body matches BodyPlan::Ram(b)
                    ==> (rec.req_body matches BodyPlan::Ram(c) && c@ == b@)
                &&& q->Ok_0.req_body matches BodyPlan::Fs(b) ==> (rec.req_body matches BodyPlan::Fs(c) && c@ == b@)
                &&& q->Ok_0.res_body matches BodyPlan::Ram(b)
                    ==> (rec.res_body matches BodyPlan::Ram(c) && c@ == b@)
                &&& q->Ok_0.res_body matches BodyPlan::Fs(b) ==> (rec.res_body matches BodyPlan::Fs(c) && c@ == b@)
            }
        },
{
    if r is Ok && q is Ok {
        assert(record_view(r->Ok_0).req_body == planned(r->Ok_0.req_body));
        assert(record_view(q->Ok_0).req_body == planned(q->Ok_0.req_body));
        assert(record_view(r->Ok_0).res_body == planned(r->Ok_0.res_body));
        assert(record_view(q->Ok_0).res_body == planned(q->Ok_0.res_body));
    }
}

/// A compressed record that cannot be decoded fails with the first thing that is
/// wrong when it is decoded up to the end of the meta headers, of the request headers
/// and of the response headers: the decoder fails, or a part is not valid, other than
/// that it is cut off. If there is no such thing, the response body is at fault.
pub proof fn law_damaged_record_is_read(
    stored: &[u8],
    h: &RecordHead,
    tune: &Tunables,
    n: u64,
    limit: u64,
    e: BarcError,
    l1: u64,
    l2: u64,
    l3: u64,
    z1: Result<Vec<u8>, BarcError>,
    z2: Result<Vec<u8>, BarcError>,
    z3: Result<Vec<u8>, BarcError>,
    raw1: &[u8],
    raw2: &[u8],
    raw3: &[u8],
    q1: Result<Record<BodyPlan>, BarcError>,
    q2: Result<Record<BodyPlan>, BarcError>,
    q3: Result<Record<BodyPlan>, BarcError>,
    r: Result<Record<BodyPlan>, BarcError>,
)
    requires
        !(h.compress is Plain),
        call_ensures(enough, (tune,), n),
        l1 == h.meta,
        l2 == l1 + h.req_h,
        l3 == l2 + h.req_b + h.res_h,
        n < u64::MAX,
        limit == l3 + n,
        call_ensures(decode, (h.compress, stored, limit), Err(e)),
        call_ensures(decode, (h.compress, stored, l1), z1),
        call_ensures(decode, (h.compress, stored, l2), z2),
        call_ensures(decode, (h.compress, stored, l3), z3),
        z1 is Ok ==> raw1@ == z1->Ok_0@ && call_ensures(read_decoded, (raw1, h, tune), q1),
        z2 is Ok ==> raw2@ == z2->Ok_0@ && call_ensures(read_decoded, (raw2, h, tune), q2),
        z3 is Ok ==> raw3@ == z3->Ok_0@ && call_ensures(read_decoded, (raw3, h, tune), q3),
        call_ensures(read_compressed, (stored, h, tune), r),
    ensures
        ({
            let cut = BarcError::Io(IoError::UnexpectedEof);
            let fine1 = z1 is Ok && (q1 is Ok || q1->Err_0 == cut);
            let fine2 = z2 is Ok && (q2 is Ok || q2->Err_0 == cut);
            let fine3 = z3 is Ok && (q3 is Ok || q3->Err_0 == cut);
            &&& r is Err
            &&& z1 is Err || (fine1 && z2 is Err) || (fine1 && fine2 && z3 is Err)
                ==> (r->Err_0 matches BarcError::Io(
                IoError::Outside(_),
            ))
            &&& z1 is Ok && !fine1 ==> r->Err_0 == q1->Err_0
            &&& fine1 && z2 is Ok && !fine2 ==> r->Err_0 == q2->Err_0
            &&& fine1 && fine2 && z3 is Ok && !fine3 ==> r->Err_0 == q3->Err_0
            &&& fine1 && fine2 && fine3 ==> (r->Err_0 matches BarcError::Body(BodyError::Io(IoError::Outside(_))))
        }),
{
}

/// A record that says that it is not compressed is not read as a compressed one.
pub proof fn law_plain_is_not_decoded(
    stored: &[u8],
    h: &RecordHead,
    tune: &Tunables,
    r: Result<Record<BodyPlan>, BarcError>,
)
    requires
        h.compress is Plain,
        call_ensures(read_compressed, (stored, h, tune), r),
    ensures
        r == Err::<Record<BodyPlan>, BarcError>(BarcError::DecoderUnsupported(Compression::Plain)),
{
}

} // verus!
