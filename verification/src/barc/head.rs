//! The fixed length head of a record.
use vstd::prelude::*;
use vstd::string::*;

use crate::body::{BodyError, IoError};
use crate::headers::HeaderError;
use crate::text::{concat, decimal, lemma_prefix_of_sum, with_decimal};

verus! {

/// The size of a record head, with the empty line that ends it.
pub const V2_HEAD_SIZE: usize = 54;

/// The maximum length of a record without its head: 2<sup>48</sup> - 1.
pub const V2_MAX_RECORD: u64 = 0xfff_fff_fff_fff;

/// The maximum size of a header block (meta, request or response), with any
/// empty line that ends it: 2<sup>20</sup> - 1.
pub const V2_MAX_HBLOCK: usize = 0xff_fff;

/// The maximum size of a request body, with any line end after it:
/// 2<sup>40</sup> - 1.
pub const V2_MAX_REQ_BODY: u64 = 0xf_fff_fff_fff;

/// Ways in which the lengths of a record head do not fit the record.
#[derive(Clone, Copy, Debug, PartialEq, Eq, Structural)]
pub enum Malformed {
    /// A header block or body is too short to have a line end.
    TooShort,
    /// The parts are longer than the record.
    TooLong,
}

/// Failures with a BARC file.
#[derive(Debug)]
#[non_exhaustive]
pub enum BarcError {
    /// A failure with a body.
    Body(BodyError),
    /// A failure to read or write the file.
    Io(IoError),
    /// An unknown [`RecordType`] flag.
    UnknownRecordType(u8),
    /// An unknown [`Compression`] flag.
    UnknownCompression(u8),
    /// There is no decoder for the compression.
    DecoderUnsupported(Compression),
    /// The file ends within a record head, of which there is this much.
    ReadIncompleteRecHead(usize),
    /// Not a record head.
    ReadInvalidRecHead,
    /// An invalid hexadecimal digit in a record head.
    ReadInvalidRecHeadHex(u8),
    /// A header name, value or block is not valid.
    InvalidHeader(HeaderError),
    /// The lengths in a record head are inconsistent.
    Malformed(Malformed),
}

impl BarcError {
    /// A description for the user.
    pub fn message(&self) -> (s: String)
        ensures
            match *self {
                BarcError::Body(BodyError::BodyTooLong(l)) => s@ == "With Body; "@ + ("Body length of "@
                    + decimal(l as nat) + "+ bytes exceeds Tunables::max_body"@),
                BarcError::UnknownRecordType(b) => s@ == "Unknown record type flag ["@ + decimal(b as nat)
                    + "]"@,
                BarcError::UnknownCompression(b) => s@ == "Unknown compression flag ["@ + decimal(b as nat)
                    + "]"@,
                BarcError::DecoderUnsupported(Compression::Plain) => s@
                    == "No decoder for Plain. Enable the feature?"@,
                BarcError::DecoderUnsupported(Compression::Gzip) => s@
                    == "No decoder for Gzip. Enable the feature?"@,
                BarcError::DecoderUnsupported(Compression::Brotli) => s@
                    == "No decoder for Brotli. Enable the feature?"@,
                BarcError::ReadIncompleteRecHead(l) => s@ == "Incomplete record head, len "@ + decimal(
                    l as nat,
                ) + ""@,
                BarcError::ReadInvalidRecHead => s@ == "Invalid record head suffix"@,
                BarcError::ReadInvalidRecHeadHex(b) => s@ == "Invalid record head hex digit ["@ + decimal(
                    b as nat,
                ) + "]"@,
                BarcError::InvalidHeader(e) => s@ == "Invalid header; "@ + e.spec_message(),
                BarcError::Malformed(Malformed::TooShort) => s@ == "Malformed record: part too short"@,
                BarcError::Malformed(Malformed::TooLong) => s@ == "Malformed record: parts too long"@,
                BarcError::Body(BodyError::Io(IoError::UnexpectedEof)) => s@ == "With Body; "@ + (
                "Body I/O: "@ + "failed to fill whole buffer"@),
                BarcError::Body(BodyError::Io(_)) => ("With Body; "@ + "Body I/O: "@).is_prefix_of(s@),
                BarcError::Io(IoError::UnexpectedEof) => s@ == "failed to fill whole buffer"@,
                BarcError::Io(_) => true,
            },
    {
        match self {
            BarcError::Body(e) => {
                let m = e.message();
                let s = concat("With Body; ", m.as_str());
                proof {
                    lemma_prefix_of_sum("With Body; "@, "Body I/O: "@, m@);
                }
                s
            },
            BarcError::Io(e) => e.message(),
            BarcError::UnknownRecordType(b) => with_decimal("Unknown record type flag [", *b as u64, "]"),
            BarcError::UnknownCompression(b) => with_decimal("Unknown compression flag [", *b as u64, "]"),
            BarcError::DecoderUnsupported(c) => match c {
                Compression::Plain => "No decoder for Plain. Enable the feature?".to_owned(),
                Compression::Gzip => "No decoder for Gzip. Enable the feature?".to_owned(),
                Compression::Brotli => "No decoder for Brotli. Enable the feature?".to_owned(),
            },
            BarcError::ReadIncompleteRecHead(l) => with_decimal(
                "Incomplete record head, len ",
                *l as u64,
                "",
            ),
            BarcError::ReadInvalidRecHead => "Invalid record head suffix".to_owned(),
            BarcError::ReadInvalidRecHeadHex(b) => with_decimal(
                "Invalid record head hex digit [",
                *b as u64,
                "]",
            ),
            BarcError::InvalidHeader(e) => {
                let m = e.message();
                concat("Invalid header; ", m.as_str())
            },
            BarcError::Malformed(Malformed::TooShort) => "Malformed record: part too short".to_owned(),
            BarcError::Malformed(Malformed::TooLong) => "Malformed record: parts too long".to_owned(),
        }
    }
}

/// The type of a record.
#[derive(Clone, Copy, Debug, PartialEq, Eq, Structural)]
pub enum RecordType {
    /// Of a head that is _reserved_ while a record is written.
    Reserved,
    /// A complete HTTP request and response dialog.
    Dialog,
}

impl RecordType {
    /// The flag of the type in a record head.
    pub open spec fn spec_flag(self) -> u8 {
        match self {
            RecordType::Reserved => 0x52,
            RecordType::Dialog => 0x44,
        }
    }

    /// The flag of the type in a record head: `R` or `D`.
    pub fn flag(self) -> (c: char)
        ensures
            c as u8 == self.spec_flag(),
            c == 'R' || c == 'D',
    {
        match self {
            RecordType::Reserved => 'R',
            RecordType::Dialog => 'D',
        }
    }

    /// The type of a flag.
    pub fn from_byte(f: u8) -> (r: Result<RecordType, BarcError>)
        ensures
            r == (if f == RecordType::Reserved.spec_flag() {
                Ok(RecordType::Reserved)
            } else if f == RecordType::Dialog.spec_flag() {
                Ok(RecordType::Dialog)
            } else {
                Err(BarcError::UnknownRecordType(f))
            }),
    {
        match f {
            0x52 => Ok(RecordType::Reserved),
            0x44 => Ok(RecordType::Dialog),
            _ => Err(BarcError::UnknownRecordType(f)),
        }
    }
}

impl Default for RecordType {
    fn default() -> (r: RecordType)
        ensures
            r == RecordType::Dialog,
    {
        RecordType::Dialog
    }
}

/// How a record is compressed.
#[derive(Clone, Copy, Debug, PartialEq, Eq, Structural)]
pub enum Compression {
    /// Not at all.
    Plain,
    /// With gzip.
    Gzip,
    /// With Brotli.
    Brotli,
}

impl Compression {
    /// The flag of the compression in a record head.
    pub open spec fn spec_flag(self) -> u8 {
        match self {
            Compression::Plain => 0x50,
            Compression::Gzip => 0x5a,
            Compression::Brotli => 0x42,
        }
    }

    /// The flag of the compression in a record head: `P`, `Z` or `B`.
    pub fn flag(self) -> (c: char)
        ensures
            c as u8 == self.spec_flag(),
            c == 'P' || c == 'Z' || c == 'B',
    {
        match self {
            Compression::Plain => 'P',
            Compression::Gzip => 'Z',
            Compression::Brotli => 'B',
        }
    }

    /// The compression of a flag.
    pub fn from_byte(f: u8) -> (r: Result<Compression, BarcError>)
        ensures
            r == (if f == Compression::Plain.spec_flag() {
                Ok(Compression::Plain)
            } else if f == Compression::Gzip.spec_flag() {
                Ok(Compression::Gzip)
            } else if f == Compression::Brotli.spec_flag() {
                Ok(Compression::Brotli)
            } else {
                Err(BarcError::UnknownCompression(f))
            }),
    {
        match f {
            0x50 => Ok(Compression::Plain),
            0x5a => Ok(Compression::Gzip),
            0x42 => Ok(Compression::Brotli),
            _ => Err(BarcError::UnknownCompression(f)),
        }
    }
}

/// The head of a record.
#[derive(Clone, Copy, Debug, PartialEq, Eq, Structural)]
pub struct RecordHead {
    /// The length of the record, without the head.
    pub len: u64,
    pub rec_type: RecordType,
    pub compress: Compression,
    /// The size of the block of meta headers.
    pub meta: usize,
    /// The size of the block of request headers.
    pub req_h: usize,
    /// The size of the request body.
    pub req_b: u64,
    /// The size of the block of response headers.
    pub res_h: usize,
}

impl RecordHead {
    /// The lengths fit the format.
    pub open spec fn wf(&self) -> bool {
        &&& self.len <= V2_MAX_RECORD
        &&& self.meta <= V2_MAX_HBLOCK
        &&& self.req_h <= V2_MAX_HBLOCK
        &&& self.req_b <= V2_MAX_REQ_BODY
        &&& self.res_h <= V2_MAX_HBLOCK
    }

    /// The head that is written before the record is.
    pub fn reserved() -> (r: RecordHead)
        ensures
            r == reserve_head(),
            r.wf(),
    {
        RecordHead {
            len: 0,
            rec_type: RecordType::Reserved,
            compress: Compression::Plain,
            meta: 0,
            req_h: 0,
            req_b: 0,
            res_h: 0,
        }
    }
}

/// The head that is written before the record is.
pub open spec fn reserve_head() -> RecordHead {
    RecordHead {
        len: 0,
        rec_type: RecordType::Reserved,
        compress: Compression::Plain,
        meta: 0,
        req_h: 0,
        req_b: 0,
        res_h: 0,
    }
}

/// The hexadecimal digit, in lower case, of a value below 16.
pub open spec fn hex_digit(v: int) -> u8 {
    if v < 10 {
        (0x30 + v) as u8
    } else {
        (0x61 + v - 10) as u8
    }
}

/// The last `width` hexadecimal digits of a number.
pub open spec fn hex(v: nat, width: nat) -> Seq<u8>
    decreases width,
{
    if width == 0 {
        Seq::empty()
    } else {
        hex(v / 16, (width - 1) as nat).push(hex_digit((v % 16) as int))
    }
}

/// The value of a hexadecimal digit, which is in lower case.
pub open spec fn digit_value(b: u8) -> Option<int> {
    if 0x30 <= b <= 0x39 {
        Some(b - 0x30)
    } else if 0x61 <= b <= 0x66 {
        Some(b - 0x61 + 10)
    } else {
        None
    }
}

/// The number that hexadecimal digits stand for, or else the first byte that is
/// not one.
pub open spec fn unhex(s: Seq<u8>) -> Result<nat, u8>
    decreases s.len(),
{
    if s.len() == 0 {
        Ok(0)
    } else {
        match unhex(s.drop_last()) {
            Err(b) => Err(b),
            Ok(v) => match digit_value(s.last()) {
                Some(d) => Ok((v * 16 + d) as nat),
                None => Err(s.last()),
            },
        }
    }
}

/// The number of values of a number of hexadecimal digits.
pub open spec fn pow16(n: nat) -> nat
    decreases n,
{
    if n == 0 {
        1
    } else {
        16 * pow16((n - 1) as nat)
    }
}

/// Digits written are as many as asked for, and read back as the number.
pub proof fn lemma_hex(v: nat, width: nat)
    requires
        v < pow16(width),
    ensures
        hex(v, width).len() == width,
        unhex(hex(v, width)) == Ok::<nat, u8>(v),
    decreases width,
{
    if width > 0 {
        lemma_hex(v / 16, (width - 1) as nat);
        let s = hex(v, width);
        assert(s.drop_last() =~= hex(v / 16, (width - 1) as nat));
        assert(s.last() == hex_digit((v % 16) as int));
        assert(digit_value(s.last()) == Some((v % 16) as int));
    } else {
        assert(v == 0);
    }
}

/// A number read is written as the digits that it was read from.
pub proof fn lemma_unhex(s: Seq<u8>)
    requires
        unhex(s) is Ok,
    ensures
        unhex(s)->Ok_0 < pow16(s.len()),
        hex(unhex(s)->Ok_0, s.len()) == s,
    decreases s.len(),
{
    if s.len() > 0 {
        let t = s.drop_last();
        lemma_unhex(t);
        let v = unhex(t)->Ok_0;
        let d = digit_value(s.last())->0;
        assert((v * 16 + d) as nat / 16 == v);
        assert((v * 16 + d) as nat % 16 == d);
        assert(hex_digit(d) == s.last());
        assert(t.push(s.last()) =~= s);
    } else {
        assert(hex(0, 0) =~= s);
    }
}

/// The number of values of the digits of each field.
pub proof fn lemma_pow16()
    ensures
        pow16(5) == 0x10_0000,
        pow16(10) == 0x100_0000_0000,
        pow16(12) == 0x1_0000_0000_0000,
        pow16(16) == 0x1_0000_0000_0000_0000,
{
    reveal_with_fuel(pow16, 17);
}

/// Append the last `width` hexadecimal digits of a number.
fn push_hex(out: &mut Vec<u8>, v: u64, width: usize)
    ensures
        final(out)@ == old(out)@ + hex(v as nat, width as nat),
    decreases width,
{
    if width > 0 {
        push_hex(out, v / 16, width - 1);
        let d: u8 = (v % 16) as u8;
        let ghost mid = out@;
        if d < 10 {
            out.push(0x30 + d);
        } else {
            out.push(0x61 + (d - 10));
        }
        proof {
            assert(out@ == mid.push(hex_digit((v % 16) as int)));
            assert(out@ =~= old(out)@ + hex(v as nat, width as nat));
        }
    } else {
        assert(out@ =~= old(out)@ + hex(v as nat, width as nat));
    }
}

/// Read an unsigned number from hexadecimal digits in lower case.
pub fn parse_hex(buf: &[u8]) -> (r: Result<u64, BarcError>)
    requires
        buf@.len() <= 16,
    ensures
        match unhex(buf@) {
            Ok(v) => r == Ok::<u64, BarcError>(v as u64) && v <= u64::MAX,
            Err(b) => r == Err::<u64, BarcError>(BarcError::ReadInvalidRecHeadHex(b)),
        },
{
    let mut v: u64 = 0;
    let mut i: usize = 0;
    proof {
        lemma_pow16();
    }
    while i < buf.len()
        invariant
            i <= buf@.len() <= 16,
            unhex(buf@.take(i as int)) == Ok::<nat, u8>(v as nat),
            pow16(16) == 0x1_0000_0000_0000_0000,
        decreases buf@.len() - i,
    {
        let d: u8 = buf[i];
        proof {
            assert(buf@.take(i + 1).drop_last() =~= buf@.take(i as int));
            lemma_unhex(buf@.take(i as int));
            lemma_pow16_mono(i + 1, 16);
            assert(pow16((i + 1) as nat) == 16 * pow16(i as nat));
        }
        if d >= 0x30 && d <= 0x39 {
            v = v * 16 + (d - 0x30) as u64;
        } else if d >= 0x61 && d <= 0x66 {
            v = v * 16 + (10 + (d - 0x61)) as u64;
        } else {
            proof {
                lemma_unhex_stays(buf@, i + 1);
            }
            return Err(BarcError::ReadInvalidRecHeadHex(d));
        }
        i += 1;
    }
    assert(buf@.take(i as int) =~= buf@);
    Ok(v)
}

/// More digits have at least as many values.
proof fn lemma_pow16_mono(a: int, b: int)
    requires
        0 <= a <= b,
    ensures
        pow16(a as nat) <= pow16(b as nat),
    decreases b - a,
{
    if a < b {
        lemma_pow16_mono(a, b - 1);
    }
}

/// The first invalid digit is that of all the digits.
proof fn lemma_unhex_stays(s: Seq<u8>, n: int)
    requires
        0 <= n <= s.len(),
        unhex(s.take(n)) is Err,
    ensures
        unhex(s) == unhex(s.take(n)),
    decreases s.len(),
{
    if n == s.len() {
        assert(s.take(n) =~= s);
    } else {
        assert(s.drop_last().take(n) =~= s.take(n));
        lemma_unhex_stays(s.drop_last(), n);
    }
}

/// The first bytes of a record head.
pub open spec fn head_prefix() -> Seq<u8> {
    seq![0x42u8, 0x41, 0x52, 0x43, 0x32, 0x20]
}

/// The bytes of a record head.
pub open spec fn head_bytes(h: RecordHead) -> Seq<u8> {
    head_prefix() + hex(h.len as nat, 12) + seq![0x20u8] + seq![
        h.rec_type.spec_flag(),
        h.compress.spec_flag(),
    ] + seq![0x20u8] + hex(h.meta as nat, 5) + seq![0x20u8] + hex(h.req_h as nat, 5) + seq![0x20u8] + hex(
        h.req_b as nat,
        10,
    ) + seq![0x20u8] + hex(h.res_h as nat, 5) + seq![0x0du8, 0x0a, 0x0d, 0x0a]
}

/// Append bytes to a buffer, and return their number.
pub fn write_all_len(out: &mut Vec<u8>, bs: &[u8]) -> (n: usize)
    ensures
        final(out)@ == old(out)@ + bs@,
        n == bs@.len(),
{
    out.extend_from_slice(bs);
    bs.len()
}

/// The length of the bytes of a record head.
pub proof fn lemma_head_len(h: RecordHead)
    requires
        h.wf(),
    ensures
        head_bytes(h).len() == V2_HEAD_SIZE,
{
    lemma_pow16();
    lemma_hex(h.len as nat, 12);
    lemma_hex(h.meta as nat, 5);
    lemma_hex(h.req_h as nat, 5);
    lemma_hex(h.req_b as nat, 10);
    lemma_hex(h.res_h as nat, 5);
}

/// Append the bytes of a record head, the lengths of which must fit the format.
pub fn write_record_head(out: &mut Vec<u8>, head: &RecordHead)
    requires
        head.wf(),
    ensures
        final(out)@ == old(out)@ + head_bytes(*head),
        final(out)@.len() == old(out)@.len() + V2_HEAD_SIZE,
{
    let ghost before = out@;
    proof {
        lemma_head_len(*head);
    }
    let prefix: [u8; 6] = [0x42, 0x41, 0x52, 0x43, 0x32, 0x20];
    let end: [u8; 4] = [0x0d, 0x0a, 0x0d, 0x0a];
    let _ = write_all_len(out, prefix.as_slice());
    push_hex(out, head.len, 12);
    out.push(0x20);
    out.push(head.rec_type.flag() as u8);
    out.push(head.compress.flag() as u8);
    out.push(0x20);
    push_hex(out, head.meta as u64, 5);
    out.push(0x20);
    push_hex(out, head.req_h as u64, 5);
    out.push(0x20);
    push_hex(out, head.req_b, 10);
    out.push(0x20);
    push_hex(out, head.res_h as u64, 5);
    let _ = write_all_len(out, end.as_slice());
    proof {
        assert(prefix@ =~= head_prefix());
        assert(end@ =~= seq![0x0du8, 0x0a, 0x0d, 0x0a]);
        assert(out@ =~= before + head_bytes(*head));
    }
}

/// The record type of a flag.
pub open spec fn type_of(f: u8) -> Result<RecordType, BarcError> {
    if f == RecordType::Reserved.spec_flag() {
        Ok(RecordType::Reserved)
    } else if f == RecordType::Dialog.spec_flag() {
        Ok(RecordType::Dialog)
    } else {
        Err(BarcError::UnknownRecordType(f))
    }
}

/// The compression of a flag.
pub open spec fn compression_of(f: u8) -> Result<Compression, BarcError> {
    if f == Compression::Plain.spec_flag() {
        Ok(Compression::Plain)
    } else if f == Compression::Gzip.spec_flag() {
        Ok(Compression::Gzip)
    } else if f == Compression::Brotli.spec_flag() {
        Ok(Compression::Brotli)
    } else {
        Err(BarcError::UnknownCompression(f))
    }
}

/// A field of a record head.
pub open spec fn field(s: Seq<u8>, from: int, to: int) -> Result<nat, u8> {
    unhex(s.subrange(from, to))
}

/// The record head that 54 bytes stand for, or the first fault of them: of the
/// prefix, the length, the type, the compression and the other lengths, in this
/// order.
pub open spec fn head_of(s: Seq<u8>) -> Result<RecordHead, BarcError> {
    if s.take(6) != head_prefix() {
        Err(BarcError::ReadInvalidRecHead)
    } else {
        match (field(s, 6, 18), type_of(s[19]), compression_of(s[20]), field(s, 22, 27), field(s, 28, 33), field(
            s,
            34,
            44,
        ), field(s, 45, 50)) {
            (Err(b), _, _, _, _, _, _) => Err(BarcError::ReadInvalidRecHeadHex(b)),
            (_, Err(e), _, _, _, _, _) => Err(e),
            (_, _, Err(e), _, _, _, _) => Err(e),
            (_, _, _, Err(b), _, _, _) => Err(BarcError::ReadInvalidRecHeadHex(b)),
            (_, _, _, _, Err(b), _, _) => Err(BarcError::ReadInvalidRecHeadHex(b)),
            (_, _, _, _, _, Err(b), _) => Err(BarcError::ReadInvalidRecHeadHex(b)),
            (_, _, _, _, _, _, Err(b)) => Err(BarcError::ReadInvalidRecHeadHex(b)),
            (Ok(len), Ok(rec_type), Ok(compress), Ok(meta), Ok(req_h), Ok(req_b), Ok(res_h)) => Ok(
                RecordHead {
                    len: len as u64,
                    rec_type,
                    compress,
                    meta: meta as usize,
                    req_h: req_h as usize,
                    req_b: req_b as u64,
                    res_h: res_h as usize,
                },
            ),
        }
    }
}

/// What the bytes of a file from some position on say of a record head there.
/// There is none at the end of the file.
pub open spec fn next_head(s: Seq<u8>) -> Result<Option<RecordHead>, BarcError> {
    if s.len() == 0 {
        Ok(None)
    } else if s.len() < V2_HEAD_SIZE {
        Err(BarcError::ReadIncompleteRecHead(s.len() as usize))
    } else {
        match head_of(s) {
            Ok(h) => Ok(Some(h)),
            Err(e) => Err(e),
        }
    }
}

/// The bytes of a record head, as far as the input has them.
pub fn read_record_head_buf(data: &[u8]) -> (r: &[u8])
    ensures
        r@ == data@.take(if data@.len() < V2_HEAD_SIZE {
            data@.len() as int
        } else {
            V2_HEAD_SIZE as int
        }),
{
    if data.len() < V2_HEAD_SIZE {
        assert(data@.take(data@.len() as int) =~= data@);
        data
    } else {
        vstd::slice::slice_subrange(data, 0, V2_HEAD_SIZE)
    }
}

/// The lengths of a parsed head fit the format.
pub proof fn lemma_head_of_wf(s: Seq<u8>)
    requires
        s.len() >= V2_HEAD_SIZE,
        head_of(s) is Ok,
    ensures
        head_of(s)->Ok_0.wf(),
{
    lemma_pow16();
    lemma_unhex(s.subrange(6, 18));
    lemma_unhex(s.subrange(22, 27));
    lemma_unhex(s.subrange(28, 33));
    lemma_unhex(s.subrange(34, 44));
    lemma_unhex(s.subrange(45, 50));
}

/// Read a record head from the bytes of a file from some position on. `None` at
/// the end of the file.
pub fn read_record_head(data: &[u8]) -> (r: Result<Option<RecordHead>, BarcError>)
    ensures
        r == next_head(data@),
        r matches Ok(Some(h)) ==> h.wf() && data@.len() >= V2_HEAD_SIZE,
{
    let buf = read_record_head_buf(data);
    let size: usize = buf.len();
    if size == 0 {
        return Ok(None);
    }
    if size != V2_HEAD_SIZE {
        return Err(BarcError::ReadIncompleteRecHead(size));
    }
    let ghost s = data@;
    proof {
        lemma_pow16();
        assert(buf@.take(6) =~= s.take(6));
        assert(buf@.subrange(6, 18) =~= s.subrange(6, 18));
        assert(buf@.subrange(22, 27) =~= s.subrange(22, 27));
        assert(buf@.subrange(28, 33) =~= s.subrange(28, 33));
        assert(buf@.subrange(34, 44) =~= s.subrange(34, 44));
        assert(buf@.subrange(45, 50) =~= s.subrange(45, 50));
        if s.take(6) == head_prefix() {
            assert(s[0] == s.take(6)[0] && s[1] == s.take(6)[1] && s[2] == s.take(6)[2]);
            assert(s[3] == s.take(6)[3] && s[4] == s.take(6)[4] && s[5] == s.take(6)[5]);
        }
    }
    if buf[0] != 0x42 || buf[1] != 0x41 || buf[2] != 0x52 || buf[3] != 0x43 || buf[4] != 0x32 || buf[5]
        != 0x20 {
        return Err(BarcError::ReadInvalidRecHead);
    }
    assert(s.take(6) =~= head_prefix());
    let len: u64 = match parse_hex(vstd::slice::slice_subrange(buf, 6, 18)) {
        Ok(v) => v,
        Err(e) => {
            return Err(e);
        },
    };
    let rec_type = match RecordType::from_byte(buf[19]) {
        Ok(v) => v,
        Err(e) => {
            return Err(e);
        },
    };
    let compress = match Compression::from_byte(buf[20]) {
        Ok(v) => v,
        Err(e) => {
            return Err(e);
        },
    };
    let meta: u64 = match parse_hex(vstd::slice::slice_subrange(buf, 22, 27)) {
        Ok(v) => v,
        Err(e) => {
            return Err(e);
        },
    };
    let req_h: u64 = match parse_hex(vstd::slice::slice_subrange(buf, 28, 33)) {
        Ok(v) => v,
        Err(e) => {
            return Err(e);
        },
    };
    let req_b: u64 = match parse_hex(vstd::slice::slice_subrange(buf, 34, 44)) {
        Ok(v) => v,
        Err(e) => {
            return Err(e);
        },
    };
    let res_h: u64 = match parse_hex(vstd::slice::slice_subrange(buf, 45, 50)) {
        Ok(v) => v,
        Err(e) => {
            return Err(e);
        },
    };
    proof {
        lemma_head_of_wf(s);
        lemma_unhex(s.subrange(22, 27));
        lemma_unhex(s.subrange(28, 33));
        lemma_unhex(s.subrange(45, 50));
    }
    Ok(
        Some(
            RecordHead {
                len,
                rec_type,
                compress,
                meta: meta as usize,
                req_h: req_h as usize,
                req_b,
                res_h: res_h as usize,
            },
        ),
    )
}

/// The parts of the bytes of a record head.
proof fn lemma_head_parts(h: RecordHead)
    requires
        h.wf(),
    ensures
        ({
            let s = head_bytes(h);
            &&& s.len() == V2_HEAD_SIZE
            &&& s.take(6) == head_prefix()
            &&& s.subrange(6, 18) == hex(h.len as nat, 12)
            &&& s[18] == 0x20
            &&& s[19] == h.rec_type.spec_flag()
            &&& s[20] == h.compress.spec_flag()
            &&& s[21] == 0x20
            &&& s.subrange(22, 27) == hex(h.meta as nat, 5)
            &&& s[27] == 0x20
            &&& s.subrange(28, 33) == hex(h.req_h as nat, 5)
            &&& s[33] == 0x20
            &&& s.subrange(34, 44) == hex(h.req_b as nat, 10)
            &&& s[44] == 0x20
            &&& s.subrange(45, 50) == hex(h.res_h as nat, 5)
            &&& s.subrange(50, 54) == seq![0x0du8, 0x0a, 0x0d, 0x0a]
        }),
{
    lemma_head_len(h);
    lemma_pow16();
    lemma_hex(h.len as nat, 12);
    lemma_hex(h.meta as nat, 5);
    lemma_hex(h.req_h as nat, 5);
    lemma_hex(h.req_b as nat, 10);
    lemma_hex(h.res_h as nat, 5);
    let s = head_bytes(h);
    assert(s.take(6) =~= head_prefix());
    assert(s.subrange(6, 18) =~= hex(h.len as nat, 12));
    assert(s.subrange(22, 27) =~= hex(h.meta as nat, 5));
    assert(s.subrange(28, 33) =~= hex(h.req_h as nat, 5));
    assert(s.subrange(34, 44) =~= hex(h.req_b as nat, 10));
    assert(s.subrange(45, 50) =~= hex(h.res_h as nat, 5));
    assert(s.subrange(50, 54) =~= seq![0x0du8, 0x0a, 0x0d, 0x0a]);
}

/// A record head that is written is read back as it was, whatever comes after
/// it in the file.
pub proof fn law_head_round_trip(h: RecordHead, rest: Seq<u8>)
    requires
        h.wf(),
    ensures
        next_head(head_bytes(h) + rest) == Ok::<Option<RecordHead>, BarcError>(Some(h)),
{
    lemma_head_parts(h);
    lemma_pow16();
    lemma_hex(h.len as nat, 12);
    lemma_hex(h.meta as nat, 5);
    lemma_hex(h.req_h as nat, 5);
    lemma_hex(h.req_b as nat, 10);
    lemma_hex(h.res_h as nat, 5);
    let t = head_bytes(h);
    let s = t + rest;
    assert(s.take(6) =~= t.take(6));
    assert(s.subrange(6, 18) =~= t.subrange(6, 18));
    assert(s.subrange(22, 27) =~= t.subrange(22, 27));
    assert(s.subrange(28, 33) =~= t.subrange(28, 33));
    assert(s.subrange(34, 44) =~= t.subrange(34, 44));
    assert(s.subrange(45, 50) =~= t.subrange(45, 50));
}

/// A record head that is read, from bytes with the separators and the end that
/// are written, is written as the same bytes.
pub proof fn law_head_is_canonical(s: Seq<u8>)
    requires
        s.len() == V2_HEAD_SIZE,
        head_of(s) is Ok,
        s[18] == 0x20,
        s[21] == 0x20,
        s[27] == 0x20,
        s[33] == 0x20,
        s[44] == 0x20,
        s.subrange(50, 54) == seq![0x0du8, 0x0a, 0x0d, 0x0a],
    ensures
        head_bytes(head_of(s)->Ok_0) == s,
{
    let h = head_of(s)->Ok_0;
    lemma_head_of_wf(s);
    lemma_head_parts(h);
    lemma_pow16();
    lemma_unhex(s.subrange(6, 18));
    lemma_unhex(s.subrange(22, 27));
    lemma_unhex(s.subrange(28, 33));
    lemma_unhex(s.subrange(34, 44));
    lemma_unhex(s.subrange(45, 50));
    let t = head_bytes(h);
    assert(s =~= s.take(6) + s.subrange(6, 18) + seq![s[18]] + seq![s[19], s[20]] + seq![s[21]] + s.subrange(
        22,
        27,
    ) + seq![s[27]] + s.subrange(28, 33) + seq![s[33]] + s.subrange(34, 44) + seq![s[44]] + s.subrange(45, 50)
        + s.subrange(50, 54));
    assert(t =~= s);
}

/// The flags of types and compressions tell them apart, and are read back.
pub proof fn law_flags(t: RecordType, c: Compression)
    ensures
        type_of(t.spec_flag()) == Ok::<RecordType, BarcError>(t),
        compression_of(c.spec_flag()) == Ok::<Compression, BarcError>(c),
{
}

/// Where the parts of a record head are: after the six characters "BARC2 " the
/// length of the record, the letters for its type and its compression, the sizes of
/// the meta headers, the request headers, the request body and the response
/// headers, all of them in hexadecimal with a space between them, and an empty line.
pub proof fn law_head_layout(h: RecordHead)
    requires
        h.wf(),
    ensures
        ({
            let s = head_bytes(h);
            &&& s.len() == 54
            &&& s.take(6) == seq![0x42u8, 0x41, 0x52, 0x43, 0x32, 0x20]
            &&& unhex(s.subrange(6, 18)) == Ok::<nat, u8>(h.len as nat)
            &&& s[18] == 0x20 && s[21] == 0x20 && s[27] == 0x20 && s[33] == 0x20 && s[44] == 0x20
            &&& s[19] == 0x44 <==> h.rec_type is Dialog
            &&& s[19] == 0x52 <==> h.rec_type is Reserved
            &&& s[20] == 0x50 <==> h.compress is Plain
            &&& s[20] == 0x5a <==> h.compress is Gzip
            &&& s[20] == 0x42 <==> h.compress is Brotli
            &&& unhex(s.subrange(22, 27)) == Ok::<nat, u8>(h.meta as nat)
            &&& unhex(s.subrange(28, 33)) == Ok::<nat, u8>(h.req_h as nat)
            &&& unhex(s.subrange(34, 44)) == Ok::<nat, u8>(h.req_b as nat)
            &&& unhex(s.subrange(45, 50)) == Ok::<nat, u8>(h.res_h as nat)
            &&& s.subrange(50, 54) == seq![0x0du8, 0x0a, 0x0d, 0x0a]
        }),
{
    lemma_head_parts(h);
    lemma_pow16();
    lemma_hex(h.len as nat, 12);
    lemma_hex(h.meta as nat, 5);
    lemma_hex(h.req_h as nat, 5);
    lemma_hex(h.req_b as nat, 10);
    lemma_hex(h.res_h as nat, 5);
}

/// A record head is added to what was written before, and has the layout of one.
pub proof fn law_head_is_written(out: &mut Vec<u8>, head: &RecordHead)
    requires
        head.wf(),
        call_ensures(write_record_head, (out, head), ()),
    ensures
        ({
            let n = old(out)@.len() as int;
            let s = final(out)@.skip(n);
            &&& final(out)@.take(n) == old(out)@
            &&& s.len() == 54
            &&& s.take(6) == seq![0x42u8, 0x41, 0x52, 0x43, 0x32, 0x20]
            &&& unhex(s.subrange(6, 18)) == Ok::<nat, u8>(head.len as nat)
            &&& s[19] == 0x44 <==> head.rec_type is Dialog
            &&& s[20] == 0x50 <==> head.compress is Plain
            &&& s[20] == 0x5a <==> head.compress is Gzip
            &&& s[20] == 0x42 <==> head.compress is Brotli
            &&& unhex(s.subrange(22, 27)) == Ok::<nat, u8>(head.meta as nat)
            &&& unhex(s.subrange(28, 33)) == Ok::<nat, u8>(head.req_h as nat)
            &&& unhex(s.subrange(34, 44)) == Ok::<nat, u8>(head.req_b as nat)
            &&& unhex(s.subrange(45, 50)) == Ok::<nat, u8>(head.res_h as nat)
            &&& s.subrange(50, 54) == seq![0x0du8, 0x0a, 0x0d, 0x0a]
        }),
{
    law_head_layout(*head);
    let n = old(out)@.len() as int;
    assert(final(out)@.take(n) =~= old(out)@);
    assert(final(out)@.skip(n) =~= head_bytes(*head));
}

/// What is read of a record head is what is at the places of its parts, and the
/// letters stand for the types and compressions that they are written for. At the
/// end of the file there is none, and one of which only a part is there is
/// incomplete.
pub proof fn law_head_is_read(data: &[u8], r: Result<Option<RecordHead>, BarcError>)
    requires
        call_ensures(read_record_head, (data,), r),
    ensures
        r matches Ok(None) <==> data@.len() == 0,
        0 < data@.len() < 54 ==> r == Err::<Option<RecordHead>, BarcError>(
            BarcError::ReadIncompleteRecHead(data@.len() as usize),
        ),
        data@.len() >= 54 && data@.take(6) != seq![0x42u8, 0x41, 0x52, 0x43, 0x32, 0x20] ==> r == Err::<
            Option<RecordHead>,
            BarcError,
        >(BarcError::ReadInvalidRecHead),
        r matches Ok(Some(h)) ==> {
            &&& data@.len() >= 54
            &&& data@.take(6) == seq![0x42u8, 0x41, 0x52, 0x43, 0x32, 0x20]
            &&& unhex(data@.subrange(6, 18)) == Ok::<nat, u8>(h.len as nat)
            &&& h.rec_type is Dialog <==> data@[19] == 0x44
            &&& h.rec_type is Reserved <==> data@[19] == 0x52
            &&& h.compress is Plain <==> data@[20] == 0x50
            &&& h.compress is Gzip <==> data@[20] == 0x5a
            &&& h.compress is Brotli <==> data@[20] == 0x42
            &&& unhex(data@.subrange(22, 27)) == Ok::<nat, u8>(h.meta as nat)
            &&& unhex(data@.subrange(28, 33)) == Ok::<nat, u8>(h.req_h as nat)
            &&& unhex(data@.subrange(34, 44)) == Ok::<nat, u8>(h.req_b as nat)
            &&& unhex(data@.subrange(45, 50)) == Ok::<nat, u8>(h.res_h as nat)
        },
        data@.len() >= 54 && data@.take(6) == seq![0x42u8, 0x41, 0x52, 0x43, 0x32, 0x20] && unhex(
            data@.subrange(6, 18),
        ) is Ok ==> {
            &&& data@[19] != 0x44 && data@[19] != 0x52 ==> r == Err::<Option<RecordHead>, BarcError>(
                BarcError::UnknownRecordType(data@[19]),
            )
            &&& (data@[19] == 0x44 || data@[19] == 0x52) && data@[20] != 0x50 && data@[20] != 0x5a && data@[20]
                != 0x42 ==> r == Err::<Option<RecordHead>, BarcError>(BarcError::UnknownCompression(data@[20]))
        },
{
    let s = data@;
    assert(head_prefix() =~= seq![0x42u8, 0x41, 0x52, 0x43, 0x32, 0x20]);
    if s.len() >= 54 && head_of(s) is Ok {
        lemma_pow16();
        lemma_unhex(s.subrange(6, 18));
        lemma_unhex(s.subrange(22, 27));
        lemma_unhex(s.subrange(28, 33));
        lemma_unhex(s.subrange(34, 44));
        lemma_unhex(s.subrange(45, 50));
    }
}

/// Digits are read from the left to the right: each one more multiplies what came
/// before by sixteen, and adds its value. Only those in lower case are digits, and
/// the first byte that is none is the one that is reported.
pub proof fn law_hex_is_positional(
    digits: &[u8],
    more: &[u8],
    d: u8,
    v: Result<u64, BarcError>,
    w: Result<u64, BarcError>,
)
    requires
        more@ == digits@.push(d),
        more@.len() <= 16,
        call_ensures(parse_hex, (digits,), v),
        call_ensures(parse_hex, (more,), w),
    ensures
        digits@.len() == 0 ==> v == Ok::<u64, BarcError>(0),
        v is Ok && 0x30 <= d <= 0x39 ==> w is Ok && w->Ok_0 == v->Ok_0 * 16 + (d - 0x30),
        v is Ok && 0x61 <= d <= 0x66 ==> w is Ok && w->Ok_0 == v->Ok_0 * 16 + (d - 0x61 + 10),
        v is Ok && !(0x30 <= d <= 0x39) && !(0x61 <= d <= 0x66) ==> w == Err::<u64, BarcError>(
            BarcError::ReadInvalidRecHeadHex(d),
        ),
        v is Err ==> w == v,
{
    assert(more@.drop_last() =~= digits@);
    assert(more@.last() == d);
}

/// As [`law_hex_is_positional`], of the number that digits stand for.
pub proof fn law_unhex_is_positional(digits: Seq<u8>, d: u8)
    ensures
        unhex(Seq::<u8>::empty()) == Ok::<nat, u8>(0),
        unhex(digits) is Ok && 0x30 <= d <= 0x39 ==> unhex(digits.push(d)) == Ok::<nat, u8>(
            (unhex(digits)->Ok_0 * 16 + (d - 0x30)) as nat,
        ),
        unhex(digits) is Ok && 0x61 <= d <= 0x66 ==> unhex(digits.push(d)) == Ok::<nat, u8>(
            (unhex(digits)->Ok_0 * 16 + (d - 0x61 + 10)) as nat,
        ),
        unhex(digits) is Ok && !(0x30 <= d <= 0x39) && !(0x61 <= d <= 0x66) ==> unhex(digits.push(d)) == Err::<
            nat,
            u8,
        >(d),
        unhex(digits) is Err ==> unhex(digits.push(d)) == unhex(digits),
{
    assert(digits.push(d).drop_last() =~= digits);
}

/// The letters of the types and compressions.
pub proof fn law_flag_letters(
    t: RecordType,
    c: Compression,
    f: u8,
    tc: char,
    cc: char,
    of_t: Result<RecordType, BarcError>,
    of_c: Result<Compression, BarcError>,
)
    requires
        call_ensures(RecordType::flag, (t,), tc),
        call_ensures(Compression::flag, (c,), cc),
        call_ensures(RecordType::from_byte, (f,), of_t),
        call_ensures(Compression::from_byte, (f,), of_c),
    ensures
        t is Dialog <==> tc == 'D',
        t is Reserved <==> tc == 'R',
        c is Plain <==> cc == 'P',
        c is Gzip <==> cc == 'Z',
        c is Brotli <==> cc == 'B',
        of_t matches Ok(RecordType::Dialog) <==> f == 0x44,
        of_t matches Ok(RecordType::Reserved) <==> f == 0x52,
        of_t is Err ==> of_t->Err_0 == BarcError::UnknownRecordType(f),
        of_c matches Ok(Compression::Plain) <==> f == 0x50,
        of_c matches Ok(Compression::Gzip) <==> f == 0x5a,
        of_c matches Ok(Compression::Brotli) <==> f == 0x42,
        of_c is Err ==> of_c->Err_0 == BarcError::UnknownCompression(f),
{
}

/// The head that is written first is reserved, and says that nothing follows it.
pub proof fn law_reserved_head(r: RecordHead)
    requires
        call_ensures(RecordHead::reserved, (), r),
    ensures
        r.rec_type is Reserved && r.compress is Plain,
        r.len == 0 && r.meta == 0 && r.req_h == 0 && r.req_b == 0 && r.res_h == 0,
        head_bytes(r).len() == 54,
{
    lemma_head_len(r);
}

/// Bytes are written after those before, and counted. Those of a head are the first
/// 54 of the input, or as many as there are.
pub proof fn law_head_buffers(out: &mut Vec<u8>, bs: &[u8], n: usize, data: &[u8], r: &[u8])
    requires
        call_ensures(write_all_len, (out, bs), n),
        call_ensures(read_record_head_buf, (data,), r),
    ensures
        final(out)@ == old(out)@ + bs@,
        n == final(out)@.len() - old(out)@.len(),
        r@.is_prefix_of(data@),
        data@.len() >= 54 ==> r@.len() == 54,
        data@.len() < 54 ==> r@ == data@,
{
    assert(data@.take(data@.len() as int) =~= data@);
}

/// A record is of a dialog unless another type is given.
pub proof fn law_default_record_type(r: RecordType)
    requires
        call_ensures(<RecordType as Default>::default, (), r),
    ensures
        r is Dialog,
{
}

/// The description of each failure with records.
pub proof fn law_barc_messages(e: BarcError, s: String, h: HeaderError, t: String)
    requires
        call_ensures(BarcError::message, (&e,), s),
        call_ensures(HeaderError::message, (&h,), t),
    ensures
        e matches BarcError::Body(BodyError::BodyTooLong(l))
            ==> s@ == "With Body; "@ + ("Body length of "@ + decimal(
            l as nat,
        ) + "+ bytes exceeds Tunables::max_body"@),
        e matches BarcError::Body(BodyError::Io(_)) ==> ("With Body; "@ + "Body I/O: "@).is_prefix_of(s@),
        e matches BarcError::UnknownRecordType(b)
            ==> s@ == "Unknown record type flag ["@ + decimal(b as nat) + "]"@,
        e matches BarcError::UnknownCompression(b)
            ==> s@ == "Unknown compression flag ["@ + decimal(b as nat) + "]"@,
        e == BarcError::DecoderUnsupported(Compression::Plain)
            ==> s@ == "No decoder for Plain. Enable the feature?"@,
        e == BarcError::DecoderUnsupported(Compression::Gzip) ==> s@ == "No decoder for Gzip. Enable the feature?"@,
        e == BarcError::DecoderUnsupported(Compression::Brotli) ==> s@
            == "No decoder for Brotli. Enable the feature?"@,
        e matches BarcError::ReadIncompleteRecHead(l) ==> s@ == "Incomplete record head, len "@ + decimal(l as nat),
        e is ReadInvalidRecHead ==> s@ == "Invalid record head suffix"@,
        e matches BarcError::ReadInvalidRecHeadHex(b)
            ==> s@ == "Invalid record head hex digit ["@ + decimal(b as nat)
            + "]"@,
        e == BarcError::InvalidHeader(h) ==> s@ == "Invalid header; "@ + t@,
        e == BarcError::Malformed(Malformed::TooShort) ==> s@ == "Malformed record: part too short"@,
        e == BarcError::Malformed(Malformed::TooLong) ==> s@ == "Malformed record: parts too long"@,
        e == BarcError::Io(IoError::UnexpectedEof) ==> s@ == "failed to fill whole buffer"@,
{
    reveal_strlit("");
    if e is ReadIncompleteRecHead {
        let l = e->ReadIncompleteRecHead_0;
        assert("Incomplete record head, len "@ + decimal(l as nat) + ""@ =~= "Incomplete record head, len "@ + decimal(
            l as nat,
        ));
    }
    lemma_prefix_of_sum("With Body; "@, "Body I/O: "@, "Body I/O: "@ + "failed to fill whole buffer"@);
}

} // verus!
