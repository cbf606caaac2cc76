//! Whether and how to compress a record.
use http::header::{HeaderMap, HeaderValue};
use vstd::prelude::*;
use vstd::string::*;

use crate::barc::head::{BarcError, Compression};
use crate::barc::record::{hname_meta_res_decoded, MetaRecorded};
use crate::body::IoError;
use crate::codec::{
    brotli, brotlied, decoder_output, gunzip, gunzip_head, gunzipped, gzip, gzipped, is_head_of, unbrotli,
    unbrotli_head, unbrotlied,
};
use crate::dialog::Body;
use crate::headers::{
    ascii_bytes, get_header, header_block, header_entries, header_name, is_visible, is_visible_slice,
    len_of_headers, values_of, Pair,
};
use crate::text::{ascii_chars, ascii_string, bytes_eq, str_eq, trim, trimmed};

verus! {

/// The failure of `mime` to parse a media type.
#[verifier::external_type_specification]
#[verifier::external_body]
pub struct ExMimeError(mime::FromStrError);

/// The type and the subtype that `mime::Mime` finds in a text. `None` where the
/// text is not a media type.
pub uninterp spec fn mime_parts(s: Seq<char>) -> Option<(Seq<char>, Seq<char>)>;

/// Parse a media type by `<mime::Mime as FromStr>::from_str`, for the texts of
/// `Mime::type_` and `Mime::subtype`.
#[verifier::external_body]
fn parse_mime(s: &str) -> (r: Result<(String, String), mime::FromStrError>)
    ensures
        r is Ok == mime_parts(s@) is Some,
        r is Ok ==> mime_parts(s@) == Some((r->Ok_0.0@, r->Ok_0.1@)),
{
    let m = s.parse::<mime::Mime>()?;
    Ok((m.type_().as_str().to_owned(), m.subtype().as_str().to_owned()))
}

/// Whether bodies of a media type are expected to be compressible.
pub open spec fn is_compressible_media(t: Seq<char>, st: Seq<char>) -> bool {
    ||| t == "text"@
    ||| t == "application"@ && (st == "html"@ || st == "javascript"@ || st == "json"@ || st == "xml"@ || st
        == "atom"@ || st == "rss"@ || st == "x-font-opentype"@ || st == "x-font-truetype"@ || st
        == "x-font-ttf"@ || st == "xhtml"@)
    ||| t == "image"@ && st == "svg"@
    ||| t == "font"@ && (st == "opentype"@ || st == "otf"@ || st == "ttf"@)
}

/// Whether bodies of a media type, given as its type and subtype in lower case,
/// are expected to be compressible.
pub fn is_compressible_mime(t: &str, st: &str) -> (b: bool)
    ensures
        b == is_compressible_media(t@, st@),
{
    proof {
        lemma_types_differ();
    }
    if str_eq(t, "text") {
        true
    } else if str_eq(t, "application") {
        str_eq(st, "html") || str_eq(st, "javascript") || str_eq(st, "json") || str_eq(st, "xml") || str_eq(
            st,
            "atom",
        ) || str_eq(st, "rss") || str_eq(st, "x-font-opentype") || str_eq(st, "x-font-truetype") || str_eq(
            st,
            "x-font-ttf",
        ) || str_eq(st, "xhtml")
    } else if str_eq(t, "image") {
        str_eq(st, "svg")
    } else if str_eq(t, "font") {
        str_eq(st, "opentype") || str_eq(st, "otf") || str_eq(st, "ttf")
    } else {
        false
    }
}

/// The types of media that are told apart do differ.
proof fn lemma_types_differ()
    ensures
        "application"@ != "image"@,
        "application"@ != "font"@,
        "image"@ != "font"@,
{
    reveal_strlit("application");
    reveal_strlit("image");
    reveal_strlit("font");
    assert("application"@.len() == 11);
    assert("image"@.len() == 5);
    assert("font"@.len() == 4);
}

/// Whether bodies with a content type are expected to be compressible.
pub open spec fn is_compressible_text(s: Seq<char>) -> bool {
    match mime_parts(trimmed(s)) {
        Some((t, st)) => is_compressible_media(t, st),
        None => false,
    }
}

/// Whether bodies with a content type are expected to be compressible. This is
/// false where the text is not a media type.
pub fn is_compressible_type_str(ctype_str: &str) -> (b: bool)
    ensures
        b == is_compressible_text(ctype_str@),
{
    match parse_mime(trim(ctype_str)) {
        Ok((t, st)) => is_compressible_mime(t.as_str(), st.as_str()),
        Err(_) => false,
    }
}

/// Whether bodies with a content type header, if there is one, are expected to
/// be compressible.
pub open spec fn is_compressible_value(ctype: Option<Seq<u8>>) -> bool {
    match ctype {
        Some(v) => is_visible(v) && is_compressible_text(ascii_chars(v)),
        None => false,
    }
}

/// Whether bodies with a content type header, if there is one, are expected to
/// be compressible.
pub fn is_compressible_type(ctype: Option<&[u8]>) -> (b: bool)
    ensures
        b == is_compressible_value(match ctype {
            Some(v) => Some(v@),
            None => None,
        }),
{
    match ctype {
        Some(v) => {
            if !is_visible_slice(v) {
                return false;
            }
            let text = ascii_string(v);
            is_compressible_type_str(text.as_str())
        },
        None => false,
    }
}

/// The bytes of "identity".
pub open spec fn identity_bytes() -> Seq<u8> {
    seq![0x69u8, 0x64, 0x65, 0x6e, 0x74, 0x69, 0x74, 0x79]
}

/// Whether a list of encodings that were removed ends with "identity".
pub open spec fn ends_with_identity(decoded: Option<Seq<u8>>) -> bool {
    match decoded {
        Some(v) => identity_bytes().is_suffix_of(v),
        None => false,
    }
}

/// Whether the list of encodings that were removed, if there is one, ends with
/// "identity": then the body is of the content type, with no compression left.
pub fn is_identity(decoded: Option<&[u8]>) -> (b: bool)
    ensures
        b == ends_with_identity(match decoded {
            Some(v) => Some(v@),
            None => None,
        }),
{
    let idy: [u8; 8] = [0x69, 0x64, 0x65, 0x6e, 0x74, 0x69, 0x74, 0x79];
    assert(idy@ =~= identity_bytes());
    match decoded {
        Some(v) => {
            if v.len() >= 8 {
                let tail = vstd::slice::slice_subrange(v, v.len() - 8, v.len());
                bytes_eq(tail, idy.as_slice())
            } else {
                false
            }
        },
        None => false,
    }
}

/// The first value of a header, if there is one.
pub open spec fn first_value(s: Seq<Pair>, name: Seq<u8>) -> Option<Seq<u8>> {
    if values_of(s, name).len() > 0 {
        Some(values_of(s, name)[0])
    } else {
        None
    }
}

/// Whether a body with the given headers is expected to be compressible.
pub open spec fn has_compressible_type(headers: HeaderMap<HeaderValue>) -> bool {
    is_compressible_value(first_value(header_entries(headers), ascii_bytes("content-type"@)))
}

/// Whether the meta headers say that no compression is left on the response
/// body.
pub open spec fn has_identity(meta: HeaderMap<HeaderValue>) -> bool {
    ends_with_identity(first_value(header_entries(meta), ascii_bytes("response-decoded"@)))
}

/// The compressible bytes of a record: those of the bodies that are expected to
/// be compressible, and those of all headers.
pub open spec fn compressible_len<R: MetaRecorded>(rec: R, check_identity: bool) -> int {
    (if res_counts(rec, check_identity) {
        rec.spec_res_body().size()
    } else {
        0
    }) + (if has_compressible_type(rec.spec_req_headers()) {
        rec.spec_req_body().size()
    } else {
        0
    }) + header_block(header_entries(rec.spec_res_headers())).len() + header_block(
        header_entries(rec.spec_req_headers()),
    ).len() + header_block(header_entries(rec.spec_meta())).len()
}

/// Whether the response body of a record counts as compressible.
pub open spec fn res_counts<R: MetaRecorded>(rec: R, check_identity: bool) -> bool {
    (!check_identity || has_identity(rec.spec_meta())) && has_compressible_type(rec.spec_res_headers())
}

/// A sum, or the largest `u64`.
pub open spec fn saturated(a: int, b: int) -> int {
    if a + b > u64::MAX {
        u64::MAX as int
    } else {
        a + b
    }
}

/// The compressible bytes that are asked for: at least `min_len`, and more for
/// each body that is not expected to be compressible, `res_extra` for that of the
/// response and `req_extra` for that of the request.
pub open spec fn required_len<R: MetaRecorded>(
    rec: R,
    check_identity: bool,
    min_len: u64,
    res_extra: u64,
    req_extra: u64,
) -> int {
    let after_res = if rec.spec_res_body().size() > 0 && !res_counts(rec, check_identity) {
        saturated(min_len as int, res_extra as int)
    } else {
        min_len as int
    };
    if rec.spec_req_body().size() > 0 && !has_compressible_type(rec.spec_req_headers()) {
        saturated(after_res, req_extra as int)
    } else {
        after_res
    }
}

/// The length of a map as a block of lines, or the largest `u64`.
fn saturated_headers(headers: &HeaderMap<HeaderValue>) -> (n: u64)
    ensures
        n == (if header_block(header_entries(*headers)).len() <= u64::MAX {
            header_block(header_entries(*headers)).len() as int
        } else {
            u64::MAX as int
        }),
{
    match len_of_headers(headers) {
        Some(n) => n,
        None => u64::MAX,
    }
}

/// Strategies for compression on write.
pub trait CompressStrategy: Sized {
    /// The minimum number of compressible bytes for compression.
    spec fn spec_min_len(&self) -> u64;

    /// What a body of a length that is not expected to be compressible adds to
    /// the minimum.
    spec fn spec_non_compressible(&self, len: u64) -> u64;

    /// Whether to look for "identity" among the encodings that were removed.
    spec fn spec_check_identity(&self) -> bool;

    /// The mode and level to use for a record, where it is known whether the
    /// record has enough compressible bytes.
    spec fn spec_mode(&self, compressible: bool) -> (Compression, u32);

    /// Whether the level is one that can be used.
    spec fn wf(&self) -> bool;

    /// The encoder for a record.
    fn wrap_encoder<R: MetaRecorded>(&self, rec: &R) -> (r: EncodeWrapper)
        requires
            self.wf(),
        ensures
            r.wf(),
            r@ == Seq::<u8>::empty(),
            (r.spec_mode(), r.spec_level()) == self.spec_mode(
                compressible_len(*rec, self.spec_check_identity()) >= required_len(
                    *rec,
                    self.spec_check_identity(),
                    self.spec_min_len(),
                    self.spec_non_compressible(rec.spec_res_body().size() as u64),
                    self.spec_non_compressible(rec.spec_req_body().size() as u64),
                ),
            ),
    ;

    /// The minimum number of compressible bytes for compression.
    fn min_len(&self) -> (r: u64)
        ensures
            r == self.spec_min_len(),
    ;

    /// What a body of a length that is not expected to be compressible adds to
    /// the minimum.
    fn non_compressible(&self, len: u64) -> (r: u64)
        ensures
            r == self.spec_non_compressible(len),
    ;

    /// Whether to look for "identity" among the encodings that were removed, as
    /// proof that the content type is that of the response body.
    fn check_identity(&self) -> (r: bool)
        ensures
            r == self.spec_check_identity(),
    ;

    /// Whether a record has enough compressible bytes, in its bodies and
    /// headers. Bodies that are not expected to be compressible raise what is
    /// enough.
    fn is_compressible<R: MetaRecorded>(&self, rec: &R) -> (b: bool)
        ensures
            b == (compressible_len(*rec, self.spec_check_identity()) >= required_len(
                *rec,
                self.spec_check_identity(),
                self.spec_min_len(),
                self.spec_non_compressible(rec.spec_res_body().size() as u64),
                self.spec_non_compressible(rec.spec_req_body().size() as u64),
            )),
    {
        proof {
            reveal_strlit("content-type");
        }
        let ct = header_name("content-type");
        let mut clen: u64 = 0;
        let mut min_len: u64 = self.min_len();

        let len: u64 = rec.res_body().body_len();
        if len > 0 {
            if (!self.check_identity() || is_identity(get_header(rec.meta(), &hname_meta_res_decoded())))
                && is_compressible_type(get_header(rec.res_headers(), &ct)) {
                clen = len;
            } else {
                min_len = min_len.saturating_add(self.non_compressible(len));
            }
        }
        let len: u64 = rec.req_body().body_len();
        if len > 0 {
            if is_compressible_type(get_header(rec.req_headers(), &ct)) {
                clen = clen.saturating_add(len);
            } else {
                min_len = min_len.saturating_add(self.non_compressible(len));
            }
        }
        if clen >= min_len {
            return true;
        }
        clen = clen.saturating_add(saturated_headers(rec.res_headers()));
        if clen >= min_len {
            return true;
        }
        clen = clen.saturating_add(saturated_headers(rec.req_headers()));
        if clen >= min_len {
            return true;
        }
        clen = clen.saturating_add(saturated_headers(rec.meta()));
        clen >= min_len
    }
}

/// The strategy of no compression.
#[derive(Clone, Copy, Debug)]
pub struct NoCompressStrategy {}

impl Default for NoCompressStrategy {
    fn default() -> (r: NoCompressStrategy) {
        NoCompressStrategy {  }
    }
}

impl CompressStrategy for NoCompressStrategy {
    open spec fn spec_min_len(&self) -> u64 {
        0
    }

    open spec fn spec_non_compressible(&self, len: u64) -> u64 {
        len / 2
    }

    open spec fn spec_check_identity(&self) -> bool {
        false
    }

    open spec fn spec_mode(&self, compressible: bool) -> (Compression, u32) {
        (Compression::Plain, 0)
    }

    open spec fn wf(&self) -> bool {
        true
    }

    fn wrap_encoder<R: MetaRecorded>(&self, _rec: &R) -> EncodeWrapper {
        EncodeWrapper::plain()
    }

    fn min_len(&self) -> u64 {
        0
    }

    fn non_compressible(&self, len: u64) -> u64 {
        len / 2
    }

    fn check_identity(&self) -> bool {
        false
    }
}

/// The strategy of compression with gzip, of records with enough compressible
/// bytes.
#[derive(Clone, Copy, Debug)]
pub struct GzipCompressStrategy {
    pub min_len: u64,
    pub compression_level: u32,
    pub check_identity: bool,
}

impl GzipCompressStrategy {
    /// Set the minimum number of compressible bytes. Default: 4 KiB.
    pub fn set_min_len(self, size: u64) -> (r: GzipCompressStrategy)
        ensures
            r == (GzipCompressStrategy { min_len: size, ..self }),
    {
        GzipCompressStrategy { min_len: size, ..self }
    }

    /// Set the level, from 0 for no compression to 9 for the highest. Default:
    /// 6.
    pub fn set_compression_level(self, level: u32) -> (r: GzipCompressStrategy)
        ensures
            r == (GzipCompressStrategy { compression_level: level, ..self }),
    {
        GzipCompressStrategy { compression_level: level, ..self }
    }

    /// Set whether to look for "identity" among the encodings that were
    /// removed. Default: false.
    pub fn set_check_identity(self, check: bool) -> (r: GzipCompressStrategy)
        ensures
            r == (GzipCompressStrategy { check_identity: check, ..self }),
    {
        GzipCompressStrategy { check_identity: check, ..self }
    }
}

impl Default for GzipCompressStrategy {
    fn default() -> (r: GzipCompressStrategy)
        ensures
            r.min_len == 4 * 1024,
            r.compression_level == 6,
            !r.check_identity,
    {
        GzipCompressStrategy { min_len: 4 * 1024, compression_level: 6, check_identity: false }
    }
}

impl CompressStrategy for GzipCompressStrategy {
    open spec fn spec_min_len(&self) -> u64 {
        self.min_len
    }

    open spec fn spec_non_compressible(&self, len: u64) -> u64 {
        len / 2
    }

    open spec fn spec_check_identity(&self) -> bool {
        self.check_identity
    }

    open spec fn spec_mode(&self, compressible: bool) -> (Compression, u32) {
        if compressible {
            (Compression::Gzip, self.compression_level)
        } else {
            (Compression::Plain, 0)
        }
    }

    open spec fn wf(&self) -> bool {
        self.compression_level <= 10
    }

    fn wrap_encoder<R: MetaRecorded>(&self, rec: &R) -> EncodeWrapper {
        if self.is_compressible(rec) {
            EncodeWrapper::gzip(self.compression_level)
        } else {
            EncodeWrapper::plain()
        }
    }

    fn min_len(&self) -> u64 {
        self.min_len
    }

    fn non_compressible(&self, len: u64) -> u64 {
        len / 2
    }

    fn check_identity(&self) -> bool {
        self.check_identity
    }
}

/// The strategy of compression with Brotli, of records with enough compressible
/// bytes.
#[derive(Clone, Copy, Debug)]
pub struct BrotliCompressStrategy {
    pub min_len: u64,
    pub compression_level: u32,
    pub check_identity: bool,
}

impl BrotliCompressStrategy {
    /// Set the minimum number of compressible bytes. Default: 1 KiB.
    pub fn set_min_len(self, size: u64) -> (r: BrotliCompressStrategy)
        ensures
            r == (BrotliCompressStrategy { min_len: size, ..self }),
    {
        BrotliCompressStrategy { min_len: size, ..self }
    }

    /// Set the level, from 0 for no compression to 9 for the highest. Default:
    /// 6.
    pub fn set_compression_level(self, level: u32) -> (r: BrotliCompressStrategy)
        ensures
            r == (BrotliCompressStrategy { compression_level: level, ..self }),
    {
        BrotliCompressStrategy { compression_level: level, ..self }
    }

    /// Set whether to look for "identity" among the encodings that were
    /// removed. Default: false.
    pub fn set_check_identity(self, check: bool) -> (r: BrotliCompressStrategy)
        ensures
            r == (BrotliCompressStrategy { check_identity: check, ..self }),
    {
        BrotliCompressStrategy { check_identity: check, ..self }
    }
}

impl Default for BrotliCompressStrategy {
    fn default() -> (r: BrotliCompressStrategy)
        ensures
            r.min_len == 1024,
            r.compression_level == 6,
            !r.check_identity,
    {
        BrotliCompressStrategy { min_len: 1024, compression_level: 6, check_identity: false }
    }
}

impl CompressStrategy for BrotliCompressStrategy {
    open spec fn spec_min_len(&self) -> u64 {
        self.min_len
    }

    open spec fn spec_non_compressible(&self, len: u64) -> u64 {
        len / 2
    }

    open spec fn spec_check_identity(&self) -> bool {
        self.check_identity
    }

    open spec fn spec_mode(&self, compressible: bool) -> (Compression, u32) {
        if compressible {
            (Compression::Brotli, self.compression_level)
        } else {
            (Compression::Plain, 0)
        }
    }

    open spec fn wf(&self) -> bool {
        true
    }

    fn wrap_encoder<R: MetaRecorded>(&self, rec: &R) -> EncodeWrapper {
        if self.is_compressible(rec) {
            EncodeWrapper::brotli(self.compression_level)
        } else {
            EncodeWrapper::plain()
        }
    }

    fn min_len(&self) -> u64 {
        self.min_len
    }

    fn non_compressible(&self, len: u64) -> u64 {
        len / 2
    }

    fn check_identity(&self) -> bool {
        self.check_identity
    }
}

/// A strategy of compression by the length of the bodies alone.
pub trait WriteStrategy: Sized {
    /// The level is one that the encoder can use.
    spec fn wf(&self) -> bool;

    /// The compression, and the level of it.
    spec fn spec_mode(&self, body_len: u64) -> (Compression, u32);

    /// An encoder for a record whose bodies have some length in total.
    fn wrap(&self, body_len: u64) -> (r: EncodeWrapper)
        requires
            self.wf(),
        ensures
            r.wf(),
            r@ == Seq::<u8>::empty(),
            (r.spec_mode(), r.spec_level()) == self.spec_mode(body_len),
    ;
}

/// The strategy of compression with gzip, of records with bodies that are long
/// enough.
#[derive(Clone, Copy, Debug)]
pub struct GzipWriteStrategy {
    pub min_len: u64,
    pub compression_level: u32,
}

impl Default for GzipWriteStrategy {
    /// From 8 KiB, at level 6.
    fn default() -> (r: GzipWriteStrategy)
        ensures
            r == (GzipWriteStrategy { min_len: 8192, compression_level: 6 }),
    {
        GzipWriteStrategy { min_len: 8192, compression_level: 6 }
    }
}

impl WriteStrategy for GzipWriteStrategy {
    open spec fn wf(&self) -> bool {
        self.compression_level <= 10
    }

    open spec fn spec_mode(&self, body_len: u64) -> (Compression, u32) {
        if body_len >= self.min_len {
            (Compression::Gzip, self.compression_level)
        } else {
            (Compression::Plain, 0)
        }
    }

    fn wrap(&self, body_len: u64) -> EncodeWrapper {
        if body_len >= self.min_len {
            EncodeWrapper::gzip(self.compression_level)
        } else {
            EncodeWrapper::plain()
        }
    }
}

/// The strategy of no compression, by the length of the bodies.
#[derive(Clone, Copy, Debug)]
pub struct PlainWriteStrategy {}

impl Default for PlainWriteStrategy {
    fn default() -> (r: PlainWriteStrategy)
        ensures
            r == (PlainWriteStrategy {  }),
    {
        PlainWriteStrategy {  }
    }
}

impl WriteStrategy for PlainWriteStrategy {
    open spec fn wf(&self) -> bool {
        true
    }

    open spec fn spec_mode(&self, body_len: u64) -> (Compression, u32) {
        (Compression::Plain, 0)
    }

    fn wrap(&self, _body_len: u64) -> EncodeWrapper {
        EncodeWrapper::plain()
    }
}

/// A record that is being written, with how it is to be encoded.
pub struct EncodeWrapper {
    mode: Compression,
    level: u32,
    raw: Vec<u8>,
}

impl View for EncodeWrapper {
    type V = Seq<u8>;

    /// What was written, before it is encoded.
    closed spec fn view(&self) -> Seq<u8> {
        self.raw@
    }
}

/// What an encoder of a mode and level makes of `raw`.
pub open spec fn encoded(mode: Compression, level: u32, raw: Seq<u8>) -> Seq<u8> {
    match mode {
        Compression::Plain => raw,
        Compression::Gzip => gzipped(level, raw),
        Compression::Brotli => brotlied(level, raw),
    }
}

/// Whether `out` is what an encoder of a mode and level makes of `raw`, and
/// decodes to it.
pub open spec fn is_encoding(mode: Compression, level: u32, raw: Seq<u8>, out: Seq<u8>) -> bool {
    &&& out == encoded(mode, level, raw)
    &&& !(mode is Plain) ==> decoded(mode, out) == Some(raw)
}

impl EncodeWrapper {
    /// The level is one that the encoder can use.
    pub closed spec fn wf(&self) -> bool {
        self.mode is Gzip ==> self.level <= 10
    }

    /// The compression in use.
    pub closed spec fn spec_mode(&self) -> Compression {
        self.mode
    }

    /// The level in use.
    pub closed spec fn spec_level(&self) -> u32 {
        self.level
    }

    /// For output without compression.
    pub fn plain() -> (r: EncodeWrapper)
        ensures
            r.wf(),
            r@ == Seq::<u8>::empty(),
            r.spec_mode() == Compression::Plain,
            r.spec_level() == 0,
    {
        EncodeWrapper { mode: Compression::Plain, level: 0, raw: Vec::new() }
    }

    /// For output compressed with gzip.
    pub fn gzip(compression_level: u32) -> (r: EncodeWrapper)
        requires
            compression_level <= 10,
        ensures
            r.wf(),
            r@ == Seq::<u8>::empty(),
            r.spec_mode() == Compression::Gzip,
            r.spec_level() == compression_level,
    {
        EncodeWrapper { mode: Compression::Gzip, level: compression_level, raw: Vec::new() }
    }

    /// For output compressed with Brotli.
    pub fn brotli(compression_level: u32) -> (r: EncodeWrapper)
        ensures
            r.wf(),
            r@ == Seq::<u8>::empty(),
            r.spec_mode() == Compression::Brotli,
            r.spec_level() == compression_level,
    {
        EncodeWrapper { mode: Compression::Brotli, level: compression_level, raw: Vec::new() }
    }

    /// The compression in use.
    pub fn mode(&self) -> (r: Compression)
        ensures
            r == self.spec_mode(),
    {
        self.mode
    }

    /// The buffer to write to.
    pub fn as_write(&mut self) -> (r: &mut Vec<u8>)
        ensures
            r@ == old(self)@,
            final(self)@ == final(r)@,
            final(self).spec_mode() == old(self).spec_mode(),
            final(self).spec_level() == old(self).spec_level(),
            final(self).wf() == old(self).wf(),
    {
        &mut self.raw
    }

    /// Finish encoding, for the bytes to store. This always succeeds, as the
    /// bytes go to memory.
    pub fn finish(self) -> (r: Result<Vec<u8>, BarcError>)
        requires
            self.wf(),
        ensures
            r is Ok,
            is_encoding(self.spec_mode(), self.spec_level(), self@, r->Ok_0@),
    {
        let r = match self.mode {
            Compression::Plain => Ok(self.raw),
            Compression::Gzip => gzip(self.level, self.raw.as_slice()),
            Compression::Brotli => brotli(self.level, self.raw.as_slice()),
        };
        match r {
            Ok(v) => Ok(v),
            Err(e) => Err(BarcError::Io(e)),
        }
    }
}

/// What is decoded from the bytes of a compressed record.
pub open spec fn decoded(mode: Compression, data: Seq<u8>) -> Option<Seq<u8>> {
    match mode {
        Compression::Plain => None,
        Compression::Gzip => gunzipped(data),
        Compression::Brotli => unbrotlied(data),
    }
}

/// What is decoded, up to a limit, from the bytes of a compressed record. `None`
/// where that fails.
pub open spec fn decoded_head(mode: Compression, data: Seq<u8>, limit: u64) -> Option<Seq<u8>> {
    match mode {
        Compression::Plain => None,
        Compression::Gzip => gunzip_head(data, limit),
        Compression::Brotli => unbrotli_head(data, limit),
    }
}

/// Decode the bytes of a compressed record, for up to `limit` bytes. There is no
/// decoder for a record that is not compressed.
pub fn decode(mode: Compression, data: &[u8], limit: u64) -> (r: Result<Vec<u8>, BarcError>)
    ensures
        decoder_output(r) == decoded_head(mode, data@, limit),
        is_head_of(decoded(mode, data@), limit, decoder_output(r)),
        mode is Plain ==> r == Err::<Vec<u8>, BarcError>(BarcError::DecoderUnsupported(mode)),
        !(mode is Plain) && r is Err ==> (r->Err_0 matches BarcError::Io(IoError::Outside(_))),
{
    let r = match mode {
        Compression::Plain => {
            return Err(BarcError::DecoderUnsupported(mode));
        },
        Compression::Gzip => gunzip(data, limit),
        Compression::Brotli => unbrotli(data, limit),
    };
    match r {
        Ok(v) => Ok(v),
        Err(e) => Err(BarcError::Io(e)),
    }
}

/// What is encoded with a compression decodes to what it was.
pub proof fn law_encoding_decodes(mode: Compression, level: u32, raw: Seq<u8>, out: Seq<u8>)
    requires
        is_encoding(mode, level, raw, out),
        !(mode is Plain),
    ensures
        decoded(mode, out) == Some(raw),
{
}


/// The media types whose bodies are expected to be compressible are all of text,
/// and these of the others.
pub proof fn law_compressible_types(t: &str, st: &str, b: bool)
    requires
        call_ensures(is_compressible_mime, (t, st), b),
    ensures
        t@ == "text"@ ==> b,
        t@ == "application"@ && st@ == "html"@ ==> b,
        t@ == "application"@ && st@ == "javascript"@ ==> b,
        t@ == "application"@ && st@ == "json"@ ==> b,
        t@ == "application"@ && st@ == "xml"@ ==> b,
        t@ == "application"@ && st@ == "atom"@ ==> b,
        t@ == "application"@ && st@ == "rss"@ ==> b,
        t@ == "application"@ && st@ == "xhtml"@ ==> b,
        t@ == "application"@ && st@ == "x-font-opentype"@ ==> b,
        t@ == "application"@ && st@ == "x-font-truetype"@ ==> b,
        t@ == "application"@ && st@ == "x-font-ttf"@ ==> b,
        t@ == "image"@ && st@ == "svg"@ ==> b,
        t@ == "font"@ && st@ == "opentype"@ ==> b,
        t@ == "font"@ && st@ == "otf"@ ==> b,
        t@ == "font"@ && st@ == "ttf"@ ==> b,
        b ==> t@ == "text"@ || t@ == "application"@ || t@ == "image"@ || t@ == "font"@,
        b && t@ == "application"@ ==> st@ == "html"@ || st@ == "javascript"@ || st@ == "json"@ || st@ == "xml"@
            || st@ == "atom"@ || st@ == "rss"@ || st@ == "xhtml"@ || st@ == "x-font-opentype"@ || st@
            == "x-font-truetype"@ || st@ == "x-font-ttf"@,
        b && t@ == "image"@ ==> st@ == "svg"@,
        b && t@ == "font"@ ==> st@ == "opentype"@ || st@ == "otf"@ || st@ == "ttf"@,
{
    lemma_types_differ();
    reveal_strlit("text");
    reveal_strlit("application");
    reveal_strlit("image");
    reveal_strlit("font");
    assert("text"@.len() == 4 && "application"@.len() == 11 && "image"@.len() == 5);
    assert("text"@[0] == 't' && "font"@[0] == 'f');
}

/// A content type counts as its media type does, whatever its parameters and the
/// white space around it, and what is not a media type is not compressible.
pub proof fn law_content_type_counts_as_media(s: &str, t: &str, st: &str, of_media: bool, b: bool)
    requires
        call_ensures(is_compressible_mime, (t, st), of_media),
        call_ensures(is_compressible_type_str, (s,), b),
    ensures
        mime_parts(trimmed(s@)) == Some((t@, st@)) ==> b == of_media,
        mime_parts(trimmed(s@)) is None ==> !b,
{
}

/// A header for the content type counts as its text does. Without one, or with one
/// that is not a text, a body is not compressible.
pub proof fn law_header_counts_as_text(value: &[u8], s: &str, of_text: bool, b: bool, without: bool)
    requires
        call_ensures(is_compressible_type_str, (s,), of_text),
        call_ensures(is_compressible_type, (Some(value),), b),
        call_ensures(is_compressible_type, (None::<&[u8]>,), without),
    ensures
        is_visible(value@) && s@ == ascii_chars(value@) ==> b == of_text,
        !is_visible(value@) ==> !b,
        !without,
{
}

/// No compression is left on a body exactly if the list of encodings that were
/// removed ends with identity.
pub proof fn law_identity_is_last(v: &[u8], b: bool, without: bool)
    requires
        call_ensures(is_identity, (Some(v),), b),
        call_ensures(is_identity, (None::<&[u8]>,), without),
    ensures
        b <==> exists|before: Seq<u8>| v@ == #[trigger] (before + ascii_bytes("identity"@)),
        !without,
{
    reveal_strlit("identity");
    let i = ascii_bytes("identity"@);
    assert(i =~= identity_bytes());
    if b {
        let before = v@.take(v@.len() - i.len());
        assert(v@ =~= before + i);
    }
    if exists|before: Seq<u8>| v@ == #[trigger] (before + i) {
        let before = choose|before: Seq<u8>| v@ == #[trigger] (before + i);
        assert(v@.subrange(v@.len() - i.len(), v@.len() as int) =~= i);
    }
}

/// Whether a value, or that there is none, is the first one of a name.
pub open spec fn is_first_value(s: Seq<Pair>, name: Seq<u8>, value: Option<&[u8]>) -> bool {
    &&& value is Some <==> values_of(s, name).len() > 0
    &&& value is Some ==> value->0@ == values_of(s, name)[0]
}

/// Whether a record has enough compressible bytes. The bytes of all headers count,
/// and those of a body whose content type is compressible. Half of the bytes of
/// any other body are asked for in addition to the minimum. Where identity is
/// looked for, the response body counts only if no compression is left on it.
pub proof fn law_enough_to_compress<R: MetaRecorded>(
    rec: &R,
    res_type: Option<&[u8]>,
    req_type: Option<&[u8]>,
    removed: Option<&[u8]>,
    res_text: bool,
    req_text: bool,
    identity: bool,
    min_len: u64,
    check: bool,
)
    requires
        is_first_value(header_entries(rec.spec_res_headers()), ascii_bytes("content-type"@), res_type),
        is_first_value(header_entries(rec.spec_req_headers()), ascii_bytes("content-type"@), req_type),
        is_first_value(header_entries(rec.spec_meta()), ascii_bytes("response-decoded"@), removed),
        call_ensures(is_compressible_type, (res_type,), res_text),
        call_ensures(is_compressible_type, (req_type,), req_text),
        call_ensures(is_identity, (removed,), identity),
        0 <= rec.spec_res_body().size(),
        0 <= rec.spec_req_body().size(),
        min_len + rec.spec_res_body().size() + rec.spec_req_body().size() <= u64::MAX,
    ensures
        ({
            let res = rec.spec_res_body().size();
            let req = rec.spec_req_body().size();
            let headers = header_block(header_entries(rec.spec_res_headers())).len() + header_block(
                header_entries(rec.spec_req_headers()),
            ).len() + header_block(header_entries(rec.spec_meta())).len();
            let res_counts = res_text && (check ==> identity);
            &&& res_counts && req_text ==> ((compressible_len(*rec, check) >= required_len(
                *rec,
                check,
                min_len,
                (res / 2) as u64,
                (req / 2) as u64,
            )) <==> headers + res + req >= min_len)
            &&& res_counts && !req_text ==> ((compressible_len(*rec, check) >= required_len(
                *rec,
                check,
                min_len,
                (res / 2) as u64,
                (req / 2) as u64,
            )) <==> headers + res >= min_len + req / 2)
            &&& !res_counts && req_text ==> ((compressible_len(*rec, check) >= required_len(
                *rec,
                check,
                min_len,
                (res / 2) as u64,
                (req / 2) as u64,
            )) <==> headers + req >= min_len + res / 2)
            &&& !res_counts && !req_text ==> ((compressible_len(*rec, check) >= required_len(
                *rec,
                check,
                min_len,
                (res / 2) as u64,
                (req / 2) as u64,
            )) <==> headers >= min_len + res / 2 + req / 2)
        }),
{
}

/// With the strategy of gzip a record that has enough compressible bytes is encoded
/// with gzip, at the level of the strategy, and any other is not compressed. The
/// bytes of all headers count, and those of a body whose content type is
/// compressible. Half of the bytes of any other body are asked for in addition to
/// the minimum. Where identity is looked for, the response body counts only if no
/// compression is left on it.
pub proof fn law_gzip_strategy<R: MetaRecorded>(
    strategy: &GzipCompressStrategy,
    rec: &R,
    res_type: Option<&[u8]>,
    req_type: Option<&[u8]>,
    removed: Option<&[u8]>,
    res_text: bool,
    req_text: bool,
    identity: bool,
    e: EncodeWrapper,
)
    requires
        is_first_value(header_entries(rec.spec_res_headers()), ascii_bytes("content-type"@), res_type),
        is_first_value(header_entries(rec.spec_req_headers()), ascii_bytes("content-type"@), req_type),
        is_first_value(header_entries(rec.spec_meta()), ascii_bytes("response-decoded"@), removed),
        call_ensures(is_compressible_type, (res_type,), res_text),
        call_ensures(is_compressible_type, (req_type,), req_text),
        call_ensures(is_identity, (removed,), identity),
        0 <= rec.spec_res_body().size(),
        0 <= rec.spec_req_body().size(),
        strategy.min_len + rec.spec_res_body().size() + rec.spec_req_body().size() <= u64::MAX,
        call_ensures(GzipCompressStrategy::wrap_encoder::<R>, (strategy, rec), e),
    ensures
        e.spec_mode() is Plain || e.spec_mode() is Gzip,
        e.spec_mode() is Gzip ==> e.spec_level() == strategy.compression_level,
        e@ == Seq::<u8>::empty(),
        ({
            let res = rec.spec_res_body().size();
            let req = rec.spec_req_body().size();
            let headers = header_block(header_entries(rec.spec_res_headers())).len() + header_block(
                header_entries(rec.spec_req_headers()),
            ).len() + header_block(header_entries(rec.spec_meta())).len();
            let res_counts = res_text && (strategy.check_identity ==> identity);
            &&& res_counts && req_text ==> (e.spec_mode() is Gzip <==> headers + res + req >= strategy.min_len)
            &&& res_counts && !req_text ==> (e.spec_mode() is Gzip <==> headers + res >= strategy.min_len + req / 2)
            &&& !res_counts && req_text ==> (e.spec_mode() is Gzip <==> headers + req >= strategy.min_len + res / 2)
            &&& !res_counts && !req_text ==> (e.spec_mode() is Gzip
                <==> headers >= strategy.min_len + res / 2 + req / 2)
        }),
{
}

/// With the strategy of Brotli a record that has enough compressible bytes is encoded
/// with Brotli, at the level of the strategy, and any other is not compressed. The
/// bytes of all headers count, and those of a body whose content type is
/// compressible. Half of the bytes of any other body are asked for in addition to
/// the minimum. Where identity is looked for, the response body counts only if no
/// compression is left on it.
pub proof fn law_brotli_strategy<R: MetaRecorded>(
    strategy: &BrotliCompressStrategy,
    rec: &R,
    res_type: Option<&[u8]>,
    req_type: Option<&[u8]>,
    removed: Option<&[u8]>,
    res_text: bool,
    req_text: bool,
    identity: bool,
    e: EncodeWrapper,
)
    requires
        is_first_value(header_entries(rec.spec_res_headers()), ascii_bytes("content-type"@), res_type),
        is_first_value(header_entries(rec.spec_req_headers()), ascii_bytes("content-type"@), req_type),
        is_first_value(header_entries(rec.spec_meta()), ascii_bytes("response-decoded"@), removed),
        call_ensures(is_compressible_type, (res_type,), res_text),
        call_ensures(is_compressible_type, (req_type,), req_text),
        call_ensures(is_identity, (removed,), identity),
        0 <= rec.spec_res_body().size(),
        0 <= rec.spec_req_body().size(),
        strategy.min_len + rec.spec_res_body().size() + rec.spec_req_body().size() <= u64::MAX,
        call_ensures(BrotliCompressStrategy::wrap_encoder::<R>, (strategy, rec), e),
    ensures
        e.spec_mode() is Plain || e.spec_mode() is Brotli,
        e.spec_mode() is Brotli ==> e.spec_level() == strategy.compression_level,
        e@ == Seq::<u8>::empty(),
        ({
            let res = rec.spec_res_body().size();
            let req = rec.spec_req_body().size();
            let headers = header_block(header_entries(rec.spec_res_headers())).len() + header_block(
                header_entries(rec.spec_req_headers()),
            ).len() + header_block(header_entries(rec.spec_meta())).len();
            let res_counts = res_text && (strategy.check_identity ==> identity);
            &&& res_counts && req_text ==> (e.spec_mode() is Brotli <==> headers + res + req >= strategy.min_len)
            &&& res_counts && !req_text ==> (e.spec_mode() is Brotli
                <==> headers + res >= strategy.min_len + req / 2)
            &&& !res_counts && req_text ==> (e.spec_mode() is Brotli
                <==> headers + req >= strategy.min_len + res / 2)
            &&& !res_counts && !req_text ==> (e.spec_mode() is Brotli
                <==> headers >= strategy.min_len + res / 2 + req / 2)
        }),
{
}

/// With the strategy of no compression no record is compressed.
pub proof fn law_plain_strategy<R: MetaRecorded>(strategy: &NoCompressStrategy, rec: &R, e: EncodeWrapper)
    requires
        call_ensures(NoCompressStrategy::wrap_encoder::<R>, (strategy, rec), e),
    ensures
        e.spec_mode() is Plain,
        e@ == Seq::<u8>::empty(),
{
}

/// The strategies ask for what they are set to, and for half of the bytes of a
/// body that is not compressible.
pub proof fn law_strategy_settings(
    gzip: &GzipCompressStrategy,
    brotli: &BrotliCompressStrategy,
    len: u64,
    min: (u64, u64),
    half: (u64, u64),
    check: (bool, bool),
)
    requires
        call_ensures(GzipCompressStrategy::min_len, (gzip,), min.0),
        call_ensures(BrotliCompressStrategy::min_len, (brotli,), min.1),
        call_ensures(GzipCompressStrategy::non_compressible, (gzip, len), half.0),
        call_ensures(BrotliCompressStrategy::non_compressible, (brotli, len), half.1),
        call_ensures(GzipCompressStrategy::check_identity, (gzip,), check.0),
        call_ensures(BrotliCompressStrategy::check_identity, (brotli,), check.1),
    ensures
        min.0 == gzip.min_len,
        min.1 == brotli.min_len,
        2 * half.0 <= len < 2 * half.0 + 2,
        2 * half.1 <= len < 2 * half.1 + 2,
        check.0 == gzip.check_identity,
        check.1 == brotli.check_identity,
{
}

/// A setting that is changed has the new value, and the others stay.
pub proof fn law_gzip_settings_change(
    s: GzipCompressStrategy,
    min_len: u64,
    level: u32,
    check: bool,
    a: GzipCompressStrategy,
    b: GzipCompressStrategy,
    c: GzipCompressStrategy,
)
    requires
        call_ensures(GzipCompressStrategy::set_min_len, (s, min_len), a),
        call_ensures(GzipCompressStrategy::set_compression_level, (s, level), b),
        call_ensures(GzipCompressStrategy::set_check_identity, (s, check), c),
    ensures
        a.min_len == min_len && a.compression_level == s.compression_level && a.check_identity
            == s.check_identity,
        b.min_len == s.min_len && b.compression_level == level && b.check_identity == s.check_identity,
        c.min_len == s.min_len && c.compression_level == s.compression_level && c.check_identity == check,
{
}

/// A setting that is changed has the new value, and the others stay.
pub proof fn law_brotli_settings_change(
    s: BrotliCompressStrategy,
    min_len: u64,
    level: u32,
    check: bool,
    a: BrotliCompressStrategy,
    b: BrotliCompressStrategy,
    c: BrotliCompressStrategy,
)
    requires
        call_ensures(BrotliCompressStrategy::set_min_len, (s, min_len), a),
        call_ensures(BrotliCompressStrategy::set_compression_level, (s, level), b),
        call_ensures(BrotliCompressStrategy::set_check_identity, (s, check), c),
    ensures
        a.min_len == min_len && a.compression_level == s.compression_level && a.check_identity
            == s.check_identity,
        b.min_len == s.min_len && b.compression_level == level && b.check_identity == s.check_identity,
        c.min_len == s.min_len && c.compression_level == s.compression_level && c.check_identity == check,
{
}

/// By the length of the bodies alone, gzip is used from the minimum on.
pub proof fn law_compress_by_length(
    strategy: &GzipWriteStrategy,
    plain: &PlainWriteStrategy,
    body_len: u64,
    e: EncodeWrapper,
    p: EncodeWrapper,
)
    requires
        call_ensures(GzipWriteStrategy::wrap, (strategy, body_len), e),
        call_ensures(PlainWriteStrategy::wrap, (plain, body_len), p),
    ensures
        e.spec_mode() is Gzip <==> body_len >= strategy.min_len,
        e.spec_mode() is Plain <==> body_len < strategy.min_len,
        e.spec_mode() is Gzip ==> e.spec_level() == strategy.compression_level,
        p.spec_mode() is Plain,
{
}

/// An encoder encodes with the compression that it is for, all that was written
/// to it and nothing else.
pub proof fn law_encoders(
    level: u32,
    g: EncodeWrapper,
    b: EncodeWrapper,
    p: EncodeWrapper,
    of: &EncodeWrapper,
    m: Compression,
)
    requires
        call_ensures(EncodeWrapper::gzip, (level,), g),
        call_ensures(EncodeWrapper::brotli, (level,), b),
        call_ensures(EncodeWrapper::plain, (), p),
        call_ensures(EncodeWrapper::mode, (of,), m),
    ensures
        g.spec_mode() is Gzip && g.spec_level() == level && g@.len() == 0,
        b.spec_mode() is Brotli && b.spec_level() == level && b@.len() == 0,
        p.spec_mode() is Plain && p@.len() == 0,
        m == of.spec_mode(),
{
}

/// What is encoded is decoded to what it was, as far as is asked for, and without
/// compression it is stored as it is.
pub proof fn law_encoded_comes_back(
    w: EncodeWrapper,
    r: Result<Vec<u8>, BarcError>,
    stored: &[u8],
    limit: u64,
    back: Result<Vec<u8>, BarcError>,
)
    requires
        call_ensures(EncodeWrapper::finish, (w,), r),
        stored@ == r->Ok_0@,
        call_ensures(decode, (w.spec_mode(), stored, limit), back),
    ensures
        r is Ok,
        w.spec_mode() is Plain ==> r->Ok_0@ == w@,
        w.spec_mode() is Gzip ==> r->Ok_0@ == gzipped(w.spec_level(), w@),
        w.spec_mode() is Brotli ==> r->Ok_0@ == brotlied(w.spec_level(), w@),
        !(w.spec_mode() is Plain) ==> {
            &&& back is Ok
            &&& back->Ok_0@.len() == w@.len() || back->Ok_0@.len() == limit
            &&& back->Ok_0@.len() <= w@.len() && back->Ok_0@.len() <= limit
            &&& back->Ok_0@ == w@.take(back->Ok_0@.len() as int)
        },
        w.spec_mode() is Plain ==> back is Err,
{
}

/// What is written to an encoder comes after what was written before, and nothing
/// else of it changes.
pub proof fn law_encoder_is_written_to(w: &mut EncodeWrapper, r: &mut Vec<u8>, more: Seq<u8>)
    requires
        call_ensures(EncodeWrapper::as_write, (w,), r),
        final(r)@ == old(r)@ + more,
    ensures
        final(w)@ == old(w)@ + more,
        final(w).spec_mode() == old(w).spec_mode(),
        final(w).spec_level() == old(w).spec_level(),
{
}

/// The strategy of no compression has no minimum, does not look for identity, and
/// counts bodies as the others do.
pub proof fn law_plain_strategy_settings(s: &NoCompressStrategy, len: u64, min: u64, half: u64, check: bool)
    requires
        call_ensures(NoCompressStrategy::min_len, (s,), min),
        call_ensures(NoCompressStrategy::non_compressible, (s, len), half),
        call_ensures(NoCompressStrategy::check_identity, (s,), check),
    ensures
        min == 0,
        2 * half <= len < 2 * half + 2,
        !check,
{
}

/// Lengths are added up to the largest number that can be counted.
pub proof fn law_saturated(a: int, b: int)
    ensures
        saturated(a, b) == saturated(b, a),
        saturated(a, b) <= a + b,
        saturated(a, b) <= u64::MAX,
        saturated(a, b) == a + b || saturated(a, b) == u64::MAX,
        a + b <= u64::MAX ==> saturated(a, b) == a + b,
{
}

/// Bytes are decoded by the method that is given, up to the limit. Those that are not
/// compressed are not decoded.
pub proof fn law_decoded_by_method(
    data: &[u8],
    limit: u64,
    zip: Result<Vec<u8>, IoError>,
    brotli: Result<Vec<u8>, IoError>,
    a: Result<Vec<u8>, BarcError>,
    b: Result<Vec<u8>, BarcError>,
    c: Result<Vec<u8>, BarcError>,
)
    requires
        call_ensures(gunzip, (data, limit), zip),
        call_ensures(unbrotli, (data, limit), brotli),
        call_ensures(decode, (Compression::Gzip, data, limit), a),
        call_ensures(decode, (Compression::Brotli, data, limit), b),
        call_ensures(decode, (Compression::Plain, data, limit), c),
    ensures
        a is Ok <==> zip is Ok,
        a is Ok ==> a->Ok_0@ == zip->Ok_0@,
        a is Err ==> (a->Err_0 matches BarcError::Io(IoError::Outside(_))),
        b is Ok <==> brotli is Ok,
        b is Ok ==> b->Ok_0@ == brotli->Ok_0@,
        b is Err ==> (b->Err_0 matches BarcError::Io(IoError::Outside(_))),
        c == Err::<Vec<u8>, BarcError>(BarcError::DecoderUnsupported(Compression::Plain)),
{
}

/// What the strategies start with: gzip from 4 KiB, Brotli from 1 KiB, and writing with
/// gzip from 8 KiB, all at level 6 and without a look at identity.
pub proof fn law_default_strategies(
    gzip: GzipCompressStrategy,
    brotli: BrotliCompressStrategy,
    write: GzipWriteStrategy,
)
    requires
        call_ensures(<GzipCompressStrategy as Default>::default, (), gzip),
        call_ensures(<BrotliCompressStrategy as Default>::default, (), brotli),
        call_ensures(<GzipWriteStrategy as Default>::default, (), write),
    ensures
        gzip.min_len == 4_096 && gzip.compression_level == 6 && !gzip.check_identity,
        brotli.min_len == 1_024 && brotli.compression_level == 6 && !brotli.check_identity,
        write.min_len == 8_192 && write.compression_level == 6,
{
}

} // verus!
