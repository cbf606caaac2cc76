//! Compression and decompression of bytes in memory.
use vstd::prelude::*;

use crate::body::IoError;

verus! {

/// What `flate2::write::GzEncoder` makes of some bytes at a level.
pub uninterp spec fn gzipped(level: u32, data: Seq<u8>) -> Seq<u8>;

/// What `flate2::read::GzDecoder` makes of some bytes, read up to a limit. `None`
/// where it fails.
pub uninterp spec fn gunzip_head(data: Seq<u8>, limit: u64) -> Option<Seq<u8>>;

/// What is decompressed from some bytes. `None` where they are not a complete
/// gzip stream.
pub open spec fn gunzipped(data: Seq<u8>) -> Option<Seq<u8>> {
    gunzip_head(data, u64::MAX)
}

/// What `flate2::read::DeflateDecoder` makes of some bytes, read up to a limit.
/// `None` where it fails.
pub uninterp spec fn inflate_head(data: Seq<u8>, limit: u64) -> Option<Seq<u8>>;

/// What is decompressed from some bytes. `None` where they are not a complete
/// deflate stream.
pub open spec fn inflated(data: Seq<u8>) -> Option<Seq<u8>> {
    inflate_head(data, u64::MAX)
}

/// What `brotli::CompressorWriter` makes of some bytes at a level.
pub uninterp spec fn brotlied(level: u32, data: Seq<u8>) -> Seq<u8>;

/// What `brotli::Decompressor` makes of some bytes, read up to a limit. `None`
/// where it fails.
pub uninterp spec fn unbrotli_head(data: Seq<u8>, limit: u64) -> Option<Seq<u8>>;

/// What is decompressed from some bytes. `None` where they do not start with a
/// complete Brotli stream.
pub open spec fn unbrotlied(data: Seq<u8>) -> Option<Seq<u8>> {
    unbrotli_head(data, u64::MAX)
}

/// The bytes that a coder gave, if it did not fail.
pub open spec fn decoder_output<E>(r: Result<Vec<u8>, E>) -> Option<Seq<u8>> {
    match r {
        Ok(v) => Some(v@),
        Err(_) => None,
    }
}

/// Whether some bytes are what a decoder gives up to a limit, where `all` is what
/// it makes of its input. Where the input has a fault, the decoder either fails,
/// or gives as many bytes as the limit allows before it comes to the fault.
pub open spec fn is_head_of(all: Option<Seq<u8>>, limit: u64, got: Option<Seq<u8>>) -> bool {
    &&& got is Some ==> got->0.len() <= isize::MAX
    &&& match all {
        Some(s) => got == Some(s.take(if s.len() <= limit {
            s.len() as int
        } else {
            limit as int
        })),
        None => got is Some ==> got->0.len() == limit,
    }
}

/// Compress by `flate2::write::GzEncoder`, all of the data to a vector, which
/// cannot fail: a vector takes all that is written to it, and the encoder itself
/// fails only where it is used after it was finished. The decoder gives back the
/// data. A level above 10 is an error that the encoder asserts against.
#[verifier::external_body]
fn gzip_outside(level: u32, data: &[u8]) -> (r: Result<Vec<u8>, std::io::Error>)
    requires
        level <= 10,
    ensures
        r is Ok,
        r->Ok_0@ == gzipped(level, data@),
        gunzipped(r->Ok_0@) == Some(data@),
{
    let mut enc = flate2::write::GzEncoder::new(Vec::new(), flate2::Compression::new(level));
    std::io::Write::write_all(&mut enc, data)?;
    enc.finish()
}

/// Decompress by `flate2::read::GzDecoder`, read to its end or to a limit by
/// `Read::take`. What comes of it depends on the data and the limit alone, and
/// what a limit leaves is the start of what comes without one. The vector is, as
/// any, no longer than `isize::MAX` bytes.
#[verifier::external_body]
fn gunzip_outside(data: &[u8], limit: u64) -> (r: Result<Vec<u8>, std::io::Error>)
    ensures
        decoder_output(r) == gunzip_head(data@, limit),
        is_head_of(gunzipped(data@), limit, decoder_output(r)),
{
    let mut out = Vec::new();
    let decoder = flate2::read::GzDecoder::new(data);
    std::io::Read::read_to_end(&mut std::io::Read::take(decoder, limit), &mut out)?;
    Ok(out)
}

/// Decompress by `flate2::read::DeflateDecoder`, read to its end or to a limit by
/// `Read::take`. What comes of it depends on the data and the limit alone, and
/// what a limit leaves is the start of what comes without one. The vector is, as
/// any, no longer than `isize::MAX` bytes.
#[verifier::external_body]
fn inflate_outside(data: &[u8], limit: u64) -> (r: Result<Vec<u8>, std::io::Error>)
    ensures
        decoder_output(r) == inflate_head(data@, limit),
        is_head_of(inflated(data@), limit, decoder_output(r)),
{
    let mut out = Vec::new();
    let decoder = flate2::read::DeflateDecoder::new(data);
    std::io::Read::read_to_end(&mut std::io::Read::take(decoder, limit), &mut out)?;
    Ok(out)
}

/// Compress by `brotli::CompressorWriter`, all of the data to a vector, flushed
/// and then finished, which cannot fail: a vector takes all that is written to
/// it, and the encoder itself fails only where it is used after it was finished.
/// The decoder gives back the data.
#[verifier::external_body]
fn brotli_outside(level: u32, data: &[u8]) -> (r: Result<Vec<u8>, std::io::Error>)
    ensures
        r is Ok,
        r->Ok_0@ == brotlied(level, data@),
        unbrotlied(r->Ok_0@) == Some(data@),
{
    let mut enc = brotli::CompressorWriter::new(Vec::new(), 4096, level, 21);
    std::io::Write::write_all(&mut enc, data)?;
    std::io::Write::flush(&mut enc)?;
    Ok(enc.into_inner())
}

/// Decompress by `brotli::Decompressor`, read to its end or to a limit by
/// `Read::take`. What comes of it depends on the data and the limit alone, and
/// what a limit leaves is the start of what comes without one. The vector is, as
/// any, no longer than `isize::MAX` bytes.
#[verifier::external_body]
fn unbrotli_outside(data: &[u8], limit: u64) -> (r: Result<Vec<u8>, std::io::Error>)
    ensures
        decoder_output(r) == unbrotli_head(data@, limit),
        is_head_of(unbrotlied(data@), limit, decoder_output(r)),
{
    let mut out = Vec::new();
    let decoder = brotli::Decompressor::new(data, 4096);
    std::io::Read::read_to_end(&mut std::io::Read::take(decoder, limit), &mut out)?;
    Ok(out)
}

/// The outcome of a coder, with its failure as one of the library.
fn outcome(r: Result<Vec<u8>, std::io::Error>) -> (o: Result<Vec<u8>, IoError>)
    ensures
        o is Ok == r is Ok,
        r is Ok ==> o->Ok_0 == r->Ok_0,
        r is Err ==> o->Err_0 is Outside,
{
    match r {
        Ok(v) => Ok(v),
        Err(e) => Err(IoError::Outside(e)),
    }
}

/// Compress with gzip.
pub fn gzip(level: u32, data: &[u8]) -> (r: Result<Vec<u8>, IoError>)
    requires
        level <= 10,
    ensures
        r is Ok,
        r->Ok_0@ == gzipped(level, data@),
        gunzipped(r->Ok_0@) == Some(data@),
{
    outcome(gzip_outside(level, data))
}

/// Decompress a gzip stream, for up to `limit` bytes.
pub fn gunzip(data: &[u8], limit: u64) -> (r: Result<Vec<u8>, IoError>)
    ensures
        decoder_output(r) == gunzip_head(data@, limit),
        is_head_of(gunzipped(data@), limit, decoder_output(r)),
        r is Err ==> r->Err_0 is Outside,
{
    outcome(gunzip_outside(data, limit))
}

/// Decompress a deflate stream, for up to `limit` bytes.
pub fn inflate(data: &[u8], limit: u64) -> (r: Result<Vec<u8>, IoError>)
    ensures
        decoder_output(r) == inflate_head(data@, limit),
        is_head_of(inflated(data@), limit, decoder_output(r)),
        r is Err ==> r->Err_0 is Outside,
{
    outcome(inflate_outside(data, limit))
}

/// Compress with Brotli.
pub fn brotli(level: u32, data: &[u8]) -> (r: Result<Vec<u8>, IoError>)
    ensures
        r is Ok,
        r->Ok_0@ == brotlied(level, data@),
        unbrotlied(r->Ok_0@) == Some(data@),
{
    outcome(brotli_outside(level, data))
}

/// Decompress a Brotli stream, for up to `limit` bytes.
pub fn unbrotli(data: &[u8], limit: u64) -> (r: Result<Vec<u8>, IoError>)
    ensures
        decoder_output(r) == unbrotli_head(data@, limit),
        is_head_of(unbrotlied(data@), limit, decoder_output(r)),
        r is Err ==> r->Err_0 is Outside,
{
    outcome(unbrotli_outside(data, limit))
}

/// What is compressed with gzip is decompressed to the same bytes, if the limit
/// allows for all of them, and otherwise to the first of them.
pub proof fn law_gzip_comes_back(
    level: u32,
    data: &[u8],
    packed: Vec<u8>,
    again: &[u8],
    limit: u64,
    r: Result<Vec<u8>, IoError>,
)
    requires
        call_ensures(gzip, (level, data), Ok(packed)),
        again@ == packed@,
        call_ensures(gunzip, (again, limit), r),
    ensures
        r is Ok,
        data@.len() <= limit ==> r->Ok_0@ == data@,
        data@.len() > limit ==> r->Ok_0@ == data@.take(limit as int),
{
    assert(data@.take(data@.len() as int) =~= data@);
}

/// What is compressed with Brotli is decompressed to the same bytes, if the limit
/// allows for all of them, and otherwise to the first of them.
pub proof fn law_brotli_comes_back(
    level: u32,
    data: &[u8],
    packed: Vec<u8>,
    again: &[u8],
    limit: u64,
    r: Result<Vec<u8>, IoError>,
)
    requires
        call_ensures(brotli, (level, data), Ok(packed)),
        again@ == packed@,
        call_ensures(unbrotli, (again, limit), r),
    ensures
        r is Ok,
        data@.len() <= limit ==> r->Ok_0@ == data@,
        data@.len() > limit ==> r->Ok_0@ == data@.take(limit as int),
{
    assert(data@.take(data@.len() as int) =~= data@);
}

/// Compression does not fail. What it gives goes by the level and the bytes alone.
pub proof fn law_compression_succeeds(
    level: u32,
    data: &[u8],
    zipped: Result<Vec<u8>, IoError>,
    packed: Result<Vec<u8>, IoError>,
)
    requires
        call_ensures(gzip, (level, data), zipped),
        call_ensures(brotli, (level, data), packed),
    ensures
        zipped is Ok,
        zipped->Ok_0@ == gzipped(level, data@),
        packed is Ok,
        packed->Ok_0@ == brotlied(level, data@),
{
}

/// With a smaller limit, decompression gives the start of what it gives with a
/// larger one.
pub proof fn law_limit_of_decompression(
    data: &[u8],
    limit: u64,
    all_zip: Vec<u8>,
    all_deflate: Vec<u8>,
    all_brotli: Vec<u8>,
    zip: Result<Vec<u8>, IoError>,
    deflate: Result<Vec<u8>, IoError>,
    packed: Result<Vec<u8>, IoError>,
)
    requires
        call_ensures(gunzip, (data, u64::MAX), Ok(all_zip)),
        call_ensures(inflate, (data, u64::MAX), Ok(all_deflate)),
        call_ensures(unbrotli, (data, u64::MAX), Ok(all_brotli)),
        call_ensures(gunzip, (data, limit), zip),
        call_ensures(inflate, (data, limit), deflate),
        call_ensures(unbrotli, (data, limit), packed),
    ensures
        zip is Ok,
        all_zip@.len() <= limit ==> zip->Ok_0@ == all_zip@,
        all_zip@.len() > limit ==> zip->Ok_0@ == all_zip@.take(limit as int),
        deflate is Ok,
        all_deflate@.len() <= limit ==> deflate->Ok_0@ == all_deflate@,
        all_deflate@.len() > limit ==> deflate->Ok_0@ == all_deflate@.take(limit as int),
        packed is Ok,
        all_brotli@.len() <= limit ==> packed->Ok_0@ == all_brotli@,
        all_brotli@.len() > limit ==> packed->Ok_0@ == all_brotli@.take(limit as int),
{
    assert(all_zip@.take(all_zip@.len() as int) =~= all_zip@);
    assert(all_deflate@.take(all_deflate@.len() as int) =~= all_deflate@);
    assert(all_brotli@.take(all_brotli@.len() as int) =~= all_brotli@);
}

/// Decompression gives what the decoder of the format does, or fails where that
/// does, as one that was reported to the library.
pub proof fn law_decompression(
    data: &[u8],
    limit: u64,
    zip: Result<Vec<u8>, IoError>,
    deflate: Result<Vec<u8>, IoError>,
    packed: Result<Vec<u8>, IoError>,
)
    requires
        call_ensures(gunzip, (data, limit), zip),
        call_ensures(inflate, (data, limit), deflate),
        call_ensures(unbrotli, (data, limit), packed),
    ensures
        match gunzip_head(data@, limit) {
            Some(s) => zip is Ok && zip->Ok_0@ == s,
            None => zip is Err && zip->Err_0 is Outside,
        },
        match inflate_head(data@, limit) {
            Some(s) => deflate is Ok && deflate->Ok_0@ == s,
            None => deflate is Err && deflate->Err_0 is Outside,
        },
        match unbrotli_head(data@, limit) {
            Some(s) => packed is Ok && packed->Ok_0@ == s,
            None => packed is Err && packed->Err_0 is Outside,
        },
{
}

} // verus!
