//! What is stored of a record, and what is read back of it.
use vstd::prelude::*;

use crate::barc::compress::{decoded, is_encoding};
use crate::barc::head::{
    head_bytes, law_head_round_trip, lemma_head_len, next_head, BarcError, Compression, RecordHead, RecordType,
    V2_HEAD_SIZE, V2_MAX_HBLOCK, V2_MAX_RECORD, V2_MAX_REQ_BODY,
};
use crate::barc::reader::{
    compressed_bytes, compressed_record, headers_at, plain_record, PlannedBody, ReadRecord,
};
use crate::barc::record::{MetaRecorded, Record};
use crate::barc::writer::{fits, framed, payload, raw_head};
use crate::body::BodyPlan;
use crate::buf::Buffers;
use crate::headers::{header_block, header_entries, is_grouped, is_plain_list, Pair};
use crate::tune::Tunables;

verus! {

/// The content of a record.
pub struct StoredRecord {
    pub rec_type: RecordType,
    pub meta: Seq<Pair>,
    pub req_headers: Seq<Pair>,
    pub req_body: Seq<u8>,
    pub res_headers: Seq<Pair>,
    pub res_body: Seq<u8>,
}

/// The content of a recording.
pub open spec fn content<R: MetaRecorded<B = Buffers>>(rec: R) -> StoredRecord {
    StoredRecord {
        rec_type: rec.spec_rec_type(),
        meta: header_entries(rec.spec_meta()),
        req_headers: header_entries(rec.spec_req_headers()),
        req_body: rec.spec_req_body()@,
        res_headers: header_entries(rec.spec_res_headers()),
        res_body: rec.spec_res_body()@,
    }
}

/// Whether headers are read back as they are.
pub open spec fn is_readable_list(s: Seq<Pair>) -> bool {
    is_plain_list(s) && is_grouped(s)
}

/// Whether a record is read back as it is: it is not reserved, and its headers
/// are read back.
pub open spec fn is_readable(c: StoredRecord) -> bool {
    &&& !(c.rec_type is Reserved)
    &&& is_readable_list(c.meta)
    &&& is_readable_list(c.req_headers)
    &&& is_readable_list(c.res_headers)
}

/// The bytes of a header block, with an empty line after them if asked for and
/// if there are any.
pub open spec fn framed_list(s: Seq<Pair>, with_crlf: bool) -> Seq<u8> {
    framed(header_block(s), with_crlf)
}

/// The bytes of a record, before they are encoded.
pub open spec fn stored_payload(c: StoredRecord, with_crlf: bool) -> Seq<u8> {
    framed_list(c.meta, with_crlf) + framed_list(c.req_headers, with_crlf) + framed(c.req_body, with_crlf)
        + framed_list(c.res_headers, with_crlf) + framed(c.res_body, with_crlf)
}

/// The head of a record that is stored in `len` bytes.
pub open spec fn stored_head(c: StoredRecord, mode: Compression, len: nat) -> RecordHead {
    let with_crlf = mode is Plain;
    RecordHead {
        len: len as u64,
        rec_type: c.rec_type,
        compress: mode,
        meta: framed_list(c.meta, with_crlf).len() as usize,
        req_h: framed_list(c.req_headers, with_crlf).len() as usize,
        req_b: framed(c.req_body, with_crlf).len() as u64,
        res_h: framed_list(c.res_headers, with_crlf).len() as usize,
    }
}

/// Whether the parts of a record fit the format.
pub open spec fn stored_fits(c: StoredRecord, with_crlf: bool) -> bool {
    &&& framed_list(c.meta, with_crlf).len() <= V2_MAX_HBLOCK
    &&& framed_list(c.req_headers, with_crlf).len() <= V2_MAX_HBLOCK
    &&& framed_list(c.res_headers, with_crlf).len() <= V2_MAX_HBLOCK
    &&& framed(c.req_body, with_crlf).len() <= V2_MAX_REQ_BODY
}

/// Whether the bytes of a file from some position on start with a record: its
/// head, and the bytes in which its parts are stored.
pub open spec fn is_stored(c: StoredRecord, h: RecordHead, bytes: Seq<u8>, ahead: Seq<u8>) -> bool {
    let with_crlf = h.compress is Plain;
    &&& is_readable(c)
    &&& stored_fits(c, with_crlf)
    &&& bytes.len() <= V2_MAX_RECORD
    &&& h == stored_head(c, h.compress, bytes.len())
    &&& (head_bytes(h) + bytes).is_prefix_of(ahead)
    &&& if with_crlf {
        bytes == stored_payload(c, true)
    } else {
        decoded(h.compress, bytes) == Some(stored_payload(c, false))
    }
}

/// Whether what was read from a file is a record: its parts are those of the
/// record, wherever the bodies are to be kept.
pub open spec fn is_read_back(got: Record<BodyPlan>, c: StoredRecord, data: Seq<u8>) -> bool {
    &&& got.rec_type == c.rec_type
    &&& header_entries(got.meta) == c.meta
    &&& header_entries(got.req_headers) == c.req_headers
    &&& got.req_body.bytes(data) == c.req_body
    &&& header_entries(got.res_headers) == c.res_headers
    &&& got.res_body.bytes(data) == c.res_body
}

/// The bytes of a body that is to be kept somewhere, where `input` is the content
/// of the input file.
pub open spec fn planned_bytes(b: PlannedBody, input: Seq<u8>) -> Seq<u8> {
    match b {
        PlannedBody::Ram(s) => s,
        PlannedBody::Fs(s) => s,
        PlannedBody::Slice(start, end) => input.subrange(start, end),
    }
}

/// Whether what was read from a file is a record.
pub open spec fn is_same_content(r: ReadRecord, c: StoredRecord, data: Seq<u8>) -> bool {
    &&& r.rec_type == c.rec_type
    &&& r.meta == c.meta
    &&& r.req_headers == c.req_headers
    &&& planned_bytes(r.req_body, data) == c.req_body
    &&& r.res_headers == c.res_headers
    &&& planned_bytes(r.res_body, data) == c.res_body
}

/// Whether the headers of a block at a position are read back as they are, if
/// the block is there.
pub open spec fn block_reads_back(data: Seq<u8>, pos: int, with_crlf: bool, len: int) -> bool {
    forall|s: Seq<Pair>|
        is_readable_list(s) && len == framed_list(s, with_crlf).len() && pos + len <= data.len()
            && data.subrange(pos, pos + len) == framed(#[trigger] header_block(s), with_crlf)
            ==> headers_at(data, pos, with_crlf, len) == Ok::<Seq<Pair>, BarcError>(s)
}

/// Whether the parts of a record are stored, without compression, at a position
/// of a file.
pub open spec fn is_stored_plain(c: StoredRecord, data: Seq<u8>, pos: int, h: RecordHead) -> bool {
    &&& is_readable(c)
    &&& stored_fits(c, true)
    &&& h == stored_head(c, Compression::Plain, stored_payload(c, true).len())
    &&& stored_payload(c, true).len() <= V2_MAX_RECORD
    &&& pos + stored_payload(c, true).len() <= data.len()
    &&& data.subrange(pos, pos + stored_payload(c, true).len()) == stored_payload(c, true)
}

/// Whether a record was decoded, with a response body within a limit.
pub open spec fn is_decoded(c: StoredRecord, raw: Seq<u8>, h: RecordHead, max_body: u64) -> bool {
    &&& is_readable(c)
    &&& stored_fits(c, false)
    &&& raw == stored_payload(c, false)
    &&& h == stored_head(c, h.compress, h.len as nat)
    &&& !(h.compress is Plain)
    &&& c.res_body.len() <= max_body
}

/// Headers take some bytes each.
pub proof fn lemma_block_len(s: Seq<Pair>)
    ensures
        header_block(s).len() >= 4 * s.len(),
    decreases s.len(),
{
    if s.len() > 0 {
        lemma_block_len(s.drop_last());
    }
}

/// Where each of five parts that follow one another is found.
proof fn lemma_parts_in_place(
    data: Seq<u8>,
    pos: int,
    a: Seq<u8>,
    b: Seq<u8>,
    d: Seq<u8>,
    e: Seq<u8>,
    f: Seq<u8>,
)
    requires
        0 <= pos,
        pos + (a + b + d + e + f).len() <= data.len(),
        data.subrange(pos, pos + (a + b + d + e + f).len()) == a + b + d + e + f,
    ensures
        data.subrange(pos, pos + a.len()) == a,
        data.subrange(pos + a.len(), pos + a.len() + b.len()) == b,
        data.subrange(pos + a.len() + b.len(), pos + a.len() + b.len() + d.len()) == d,
        data.subrange(pos + a.len() + b.len() + d.len(), pos + a.len() + b.len() + d.len() + e.len()) == e,
        data.subrange(
            pos + a.len() + b.len() + d.len() + e.len(),
            pos + a.len() + b.len() + d.len() + e.len() + f.len(),
        ) == f,
{
    let p = a + b + d + e + f;
    let q1 = a.len() as int;
    let q2 = q1 + b.len();
    let q3 = q2 + d.len();
    let q4 = q3 + e.len();
    assert forall|i: int| 0 <= i < p.len() implies data[pos + i] == #[trigger] p[i] by {
        assert(data.subrange(pos, pos + p.len())[i] == p[i]);
    }
    assert forall|i: int| 0 <= i < a.len() implies data.subrange(pos, pos + q1)[i] == a[i] by {
        assert(p[i] == a[i]);
    }
    assert forall|i: int| 0 <= i < b.len() implies data.subrange(pos + q1, pos + q2)[i] == b[i] by {
        assert(p[q1 + i] == b[i]);
    }
    assert forall|i: int| 0 <= i < d.len() implies data.subrange(pos + q2, pos + q3)[i] == d[i] by {
        assert(p[q2 + i] == d[i]);
    }
    assert forall|i: int| 0 <= i < e.len() implies data.subrange(pos + q3, pos + q4)[i] == e[i] by {
        assert(p[q3 + i] == e[i]);
    }
    assert forall|i: int| 0 <= i < f.len() implies data.subrange(pos + q4, pos + q4 + f.len())[i] == f[i] by {
        assert(p[q4 + i] == f[i]);
    }
    assert(data.subrange(pos, pos + q1) =~= a);
    assert(data.subrange(pos + q1, pos + q2) =~= b);
    assert(data.subrange(pos + q2, pos + q3) =~= d);
    assert(data.subrange(pos + q3, pos + q4) =~= e);
    assert(data.subrange(pos + q4, pos + q4 + f.len()) =~= f);
}

/// A record that is stored without compression is read back.
pub proof fn lemma_plain_read_back(c: StoredRecord, data: Seq<u8>, pos: int, h: RecordHead, max_body_ram: u64)
    requires
        0 <= pos,
        is_stored_plain(c, data, pos, h),
        block_reads_back(data, pos, true, h.meta as int),
        block_reads_back(data, pos + h.meta, true, h.req_h as int),
        block_reads_back(data, pos + h.meta + h.req_h + h.req_b, true, h.res_h as int),
    ensures
        plain_record(data, pos, h, max_body_ram) is Ok,
        is_same_content(plain_record(data, pos, h, max_body_ram)->Ok_0, c, data),
{
    let a = framed_list(c.meta, true);
    let b = framed_list(c.req_headers, true);
    let d = framed(c.req_body, true);
    let e = framed_list(c.res_headers, true);
    let f = framed(c.res_body, true);
    let q1 = a.len() as int;
    let q2 = q1 + b.len();
    let q3 = q2 + d.len();
    let q4 = q3 + e.len();
    lemma_parts_in_place(data, pos, a, b, d, e, f);
    assert(h.meta == q1 && h.req_h == b.len() && h.req_b == d.len() && h.res_h == e.len());
    assert(framed(header_block(c.meta), true) == a);
    assert(headers_at(data, pos, true, q1) == Ok::<Seq<Pair>, BarcError>(c.meta));
    assert(framed(header_block(c.req_headers), true) == b);
    assert(headers_at(data, pos + q1, true, b.len() as int) == Ok::<Seq<Pair>, BarcError>(c.req_headers));
    assert(framed(header_block(c.res_headers), true) == e);
    assert(headers_at(data, pos + q3, true, e.len() as int) == Ok::<Seq<Pair>, BarcError>(c.res_headers));
    lemma_body_in_frame(c.req_body, data, pos + q2);
    lemma_body_in_frame(c.res_body, data, pos + q4);
    assert(Seq::<u8>::empty() =~= data.subrange(0, 0));
    if c.req_body.len() == 0 {
        assert(c.req_body =~= Seq::<u8>::empty());
    }
    if c.res_body.len() == 0 {
        assert(c.res_body =~= Seq::<u8>::empty());
    }
}

/// The bytes of a body before its line end.
proof fn lemma_body_in_frame(body: Seq<u8>, data: Seq<u8>, pos: int)
    requires
        0 <= pos,
        pos + framed(body, true).len() <= data.len(),
        data.subrange(pos, pos + framed(body, true).len()) == framed(body, true),
    ensures
        data.subrange(pos, pos + body.len()) == body,
        body.len() > 0 ==> framed(body, true).len() == body.len() + 2,
{
    let f = framed(body, true);
    assert(data.subrange(pos, pos + body.len()) =~= f.take(body.len() as int)) by {
        assert forall|i: int| 0 <= i < body.len() implies data.subrange(pos, pos + body.len())[i] == f.take(
            body.len() as int,
        )[i] by {
            assert(data.subrange(pos, pos + f.len())[i] == f[i]);
        }
    }
    assert(f.take(body.len() as int) =~= body);
}

/// A record that is stored with compression is read back, if the response body
/// is within the limit.
pub proof fn lemma_compressed_read_back(
    c: StoredRecord,
    raw: Seq<u8>,
    h: RecordHead,
    tune: Tunables,
    input: Seq<u8>,
)
    requires
        is_decoded(c, raw, h, tune.max_body),
        block_reads_back(raw, 0, false, h.meta as int),
        block_reads_back(raw, h.meta as int, false, h.req_h as int),
        block_reads_back(raw, h.meta + h.req_h + h.req_b, false, h.res_h as int),
    ensures
        compressed_record(raw, h, tune) is Ok,
        is_same_content(compressed_record(raw, h, tune)->Ok_0, c, input),
{
    let a = framed_list(c.meta, false);
    let b = framed_list(c.req_headers, false);
    let d = c.req_body;
    let e = framed_list(c.res_headers, false);
    let f = c.res_body;
    let q1 = a.len() as int;
    let q2 = q1 + b.len();
    let q3 = q2 + d.len();
    let q4 = q3 + e.len();
    assert(raw.len() == q4 + f.len());
    assert(raw.subrange(0, q1) =~= a);
    assert(raw.subrange(q1, q2) =~= b);
    assert(raw.subrange(q2, q3) =~= d);
    assert(raw.subrange(q3, q4) =~= e);
    assert(raw.skip(q4) =~= f);
    assert(h.meta == q1 && h.req_h == b.len() && h.req_b == d.len() && h.res_h == e.len());
    assert(framed(header_block(c.meta), false) == a);
    assert(headers_at(raw, 0, false, q1) == Ok::<Seq<Pair>, BarcError>(c.meta));
    assert(framed(header_block(c.req_headers), false) == b);
    assert(headers_at(raw, q1, false, b.len() as int) == Ok::<Seq<Pair>, BarcError>(c.req_headers));
    assert(framed(header_block(c.res_headers), false) == e);
    assert(headers_at(raw, q3, false, e.len() as int) == Ok::<Seq<Pair>, BarcError>(c.res_headers));
    assert(Seq::<u8>::empty() =~= raw.subrange(0, 0));
    if d.len() == 0 {
        assert(d =~= Seq::<u8>::empty());
    }
}

/// What is written of a recording is stored: the head and the encoded bytes
/// that the writer makes of it, whatever comes after them in the file.
pub proof fn law_written_is_stored<R: MetaRecorded<B = Buffers>>(
    rec: R,
    mode: Compression,
    level: u32,
    bytes: Seq<u8>,
    after: Seq<u8>,
)
    requires
        is_readable(content(rec)),
        fits(rec, mode is Plain),
        is_encoding(mode, level, payload(rec, mode is Plain), bytes),
        bytes.len() <= V2_MAX_RECORD,
    ensures
        ({
            let h = RecordHead { len: bytes.len() as u64, ..raw_head(rec, mode) };
            is_stored(content(rec), h, bytes, head_bytes(h) + bytes + after)
        }),
{
    let c = content(rec);
    let h = RecordHead { len: bytes.len() as u64, ..raw_head(rec, mode) };
    assert(stored_payload(c, mode is Plain) =~= payload(rec, mode is Plain));
    assert((head_bytes(h) + bytes).is_prefix_of(head_bytes(h) + bytes + after));
}

/// While a record is being written, before its head replaces the reserved one,
/// readers take its position for the end of the file.
pub proof fn law_reserved_reads_as_end(partial: Seq<u8>)
    ensures
        ({
            let h = crate::barc::head::reserve_head();
            next_head(head_bytes(h) + partial) == Ok::<Option<RecordHead>, BarcError>(Some(h))
                && h.rec_type is Reserved
        }),
{
    law_head_round_trip(crate::barc::head::reserve_head(), partial);
}

/// What is ahead of a reader at a stored record: the head, and then the bytes.
pub proof fn lemma_stored_ahead(c: StoredRecord, h: RecordHead, bytes: Seq<u8>, data: Seq<u8>, pos: int)
    requires
        0 <= pos <= data.len(),
        is_stored(c, h, bytes, data.skip(pos)),
    ensures
        h.wf(),
        next_head(data.skip(pos)) == Ok::<Option<RecordHead>, BarcError>(Some(h)),
        pos + V2_HEAD_SIZE + bytes.len() <= data.len(),
        data.subrange(pos + V2_HEAD_SIZE, pos + V2_HEAD_SIZE + bytes.len()) == bytes,
        compressed_bytes(data, pos + V2_HEAD_SIZE, h) == bytes,
{
    lemma_head_len(h);
    let ahead = data.skip(pos);
    let hb = head_bytes(h);
    let n = V2_HEAD_SIZE as int;
    assert((hb + bytes) =~= ahead.take(n + bytes.len())) by {
        assert((hb + bytes).len() == n + bytes.len());
    }
    assert(ahead =~= hb + ahead.skip(n)) by {
        assert forall|i: int| 0 <= i < n implies ahead[i] == hb[i] by {
            assert((hb + bytes)[i] == ahead[i]);
        }
    }
    law_head_round_trip(h, ahead.skip(n));
    assert(data.subrange(pos + n, pos + n + bytes.len()) =~= bytes) by {
        assert forall|i: int| 0 <= i < bytes.len() implies data.subrange(pos + n, pos + n + bytes.len())[i]
            == bytes[i] by {
            assert((hb + bytes)[n + i] == ahead[n + i]);
        }
    }
}

} // verus!
